//! The menu of the tray: its items, how they are labelled, which of them the
//! menu shows, and what a click on each does.

use crate::text::same_text;
use crate::tray;
use crate::tray::{coach_label, voice_label};
use vstd::prelude::*;

verus! {

/// An item of the tray menu that can be clicked.
#[derive(Copy, Clone, Debug, Eq, PartialEq, Structural)]
pub enum TrayItem {
    Open,
    Record,
    QuickThought,
    Sensitive,
    Stop,
    Coach,
    Voice,
    MicMute,
    Note,
    CopyLastDictation,
    PasteLastDictation,
    ReprocessLastDictation,
    Assistant,
    List,
    PasteSummary,
    PasteTranscript,
    ScreenShare,
    CheckForUpdates,
    Quit,
    FirstMeeting,
    SecondMeeting,
    ThirdMeeting,
}

/// What a click on an item does.
#[derive(Copy, Clone, Debug, Eq, PartialEq, Structural)]
pub enum TrayAction {
    ShowMain,
    StartRecording,
    StartQuickThought,
    ToggleSensitive,
    Stop,
    ToggleCoach,
    ToggleVoice,
    ToggleMicMute,
    AddNote,
    CopyLastDictation,
    PasteLastDictation,
    ReprocessLastDictation,
    OpenAssistant,
    OpenMeetingsFolder,
    CopyLatestSummary,
    CopyLatestTranscript,
    ToggleScreenShare,
    CheckForUpdates,
    Quit,
    /// The click was not on an item of this menu.
    Nothing,
}

/// The state that labels depend on.
#[derive(Copy, Clone, Debug, Eq, PartialEq, Structural)]
pub struct ShellState {
    pub copilot: bool,
    pub voice: bool,
    pub mic_muted: bool,
    pub hidden_from_screen_share: bool,
}

pub open spec fn item_id(item: TrayItem) -> Seq<char> {
    match item {
        TrayItem::Open => "open"@,
        TrayItem::Record => "record"@,
        TrayItem::QuickThought => "quick-thought"@,
        TrayItem::Sensitive => "sensitive"@,
        TrayItem::Stop => "stop"@,
        TrayItem::Coach => "coach-toggle"@,
        TrayItem::Voice => "voice-toggle"@,
        TrayItem::MicMute => "mic-mute-toggle"@,
        TrayItem::Note => "note"@,
        TrayItem::CopyLastDictation => "copy-last-dictation"@,
        TrayItem::PasteLastDictation => "paste-last-dictation"@,
        TrayItem::ReprocessLastDictation => "reprocess-last-dictation"@,
        TrayItem::Assistant => "assistant"@,
        TrayItem::List => "list"@,
        TrayItem::PasteSummary => "paste-summary"@,
        TrayItem::PasteTranscript => "paste-transcript"@,
        TrayItem::ScreenShare => "screen-share-toggle"@,
        TrayItem::CheckForUpdates => "check-for-updates"@,
        TrayItem::Quit => "quit"@,
        TrayItem::FirstMeeting => "cal-0"@,
        TrayItem::SecondMeeting => "cal-1"@,
        TrayItem::ThirdMeeting => "cal-2"@,
    }
}

pub open spec fn mic_mute_label_for(muted: bool) -> Seq<char> {
    if muted {
        "Mute My Mic (Recording Only) ✓"@
    } else {
        "Mute My Mic (Recording Only)"@
    }
}

pub open spec fn screen_share_label_for(hidden: bool) -> Seq<char> {
    if hidden {
        "Hide from Screen Share ✓"@
    } else {
        "Hide from Screen Share"@
    }
}

pub fn mic_mute_label(muted: bool) -> (label: &'static str)
    ensures
        label@ == mic_mute_label_for(muted),
{
    if muted {
        "Mute My Mic (Recording Only) ✓"
    } else {
        "Mute My Mic (Recording Only)"
    }
}

pub fn screen_share_label(hidden: bool) -> (label: &'static str)
    ensures
        label@ == screen_share_label_for(hidden),
{
    if hidden {
        "Hide from Screen Share ✓"
    } else {
        "Hide from Screen Share"
    }
}

/// What the item reads while a quick thought is starting.
pub const STARTING_QUICK_THOUGHT: &'static str = "Starting Quick Thought…";

/// What the record item reads while something is stopping.
pub const STOPPING: &'static str = "Stopping...";

/// The label of an item, in English. Those of the meetings are made from the
/// calendar and have none of their own.
pub open spec fn item_label(item: TrayItem, state: ShellState) -> Seq<char> {
    match item {
        TrayItem::Open => "Open Minutes"@,
        TrayItem::Record => "Start Recording"@,
        TrayItem::QuickThought => "Quick Thought"@,
        TrayItem::Sensitive => "Sensitive Meeting"@,
        TrayItem::Stop => "Stop Recording"@,
        TrayItem::Coach => tray::coach_label_for(state.copilot),
        TrayItem::Voice => tray::voice_label_for(state.voice),
        TrayItem::MicMute => mic_mute_label_for(state.mic_muted),
        TrayItem::Note => "Add Note..."@,
        TrayItem::CopyLastDictation => "Copy Last Dictation"@,
        TrayItem::PasteLastDictation => "Paste Last Dictation"@,
        TrayItem::ReprocessLastDictation => "Reprocess Last Dictation"@,
        TrayItem::Assistant => "Recall"@,
        TrayItem::List => "Open Meetings Folder"@,
        TrayItem::PasteSummary => "Copy Latest Summary"@,
        TrayItem::PasteTranscript => "Copy Latest Transcript"@,
        TrayItem::ScreenShare => screen_share_label_for(state.hidden_from_screen_share),
        TrayItem::CheckForUpdates => "Check for Updates"@,
        TrayItem::Quit => "Quit Minutes"@,
        _ => ""@,
    }
}

pub open spec fn item_action(item: TrayItem) -> TrayAction {
    match item {
        TrayItem::Open => TrayAction::ShowMain,
        TrayItem::Record => TrayAction::StartRecording,
        TrayItem::QuickThought => TrayAction::StartQuickThought,
        TrayItem::Sensitive => TrayAction::ToggleSensitive,
        TrayItem::Stop => TrayAction::Stop,
        TrayItem::Coach => TrayAction::ToggleCoach,
        TrayItem::Voice => TrayAction::ToggleVoice,
        TrayItem::MicMute => TrayAction::ToggleMicMute,
        TrayItem::Note => TrayAction::AddNote,
        TrayItem::CopyLastDictation => TrayAction::CopyLastDictation,
        TrayItem::PasteLastDictation => TrayAction::PasteLastDictation,
        TrayItem::ReprocessLastDictation => TrayAction::ReprocessLastDictation,
        TrayItem::Assistant => TrayAction::OpenAssistant,
        TrayItem::List => TrayAction::OpenMeetingsFolder,
        TrayItem::PasteSummary => TrayAction::CopyLatestSummary,
        TrayItem::PasteTranscript => TrayAction::CopyLatestTranscript,
        TrayItem::ScreenShare => TrayAction::ToggleScreenShare,
        TrayItem::CheckForUpdates => TrayAction::CheckForUpdates,
        TrayItem::Quit => TrayAction::Quit,
        TrayItem::FirstMeeting => TrayAction::StartRecording,
        TrayItem::SecondMeeting => TrayAction::StartRecording,
        TrayItem::ThirdMeeting => TrayAction::StartRecording,
    }
}

impl TrayItem {
    pub fn id(self) -> (id: &'static str)
        ensures
            id@ == item_id(self),
    {
        match self {
            TrayItem::Open => "open",
            TrayItem::Record => "record",
            TrayItem::QuickThought => "quick-thought",
            TrayItem::Sensitive => "sensitive",
            TrayItem::Stop => "stop",
            TrayItem::Coach => "coach-toggle",
            TrayItem::Voice => "voice-toggle",
            TrayItem::MicMute => "mic-mute-toggle",
            TrayItem::Note => "note",
            TrayItem::CopyLastDictation => "copy-last-dictation",
            TrayItem::PasteLastDictation => "paste-last-dictation",
            TrayItem::ReprocessLastDictation => "reprocess-last-dictation",
            TrayItem::Assistant => "assistant",
            TrayItem::List => "list",
            TrayItem::PasteSummary => "paste-summary",
            TrayItem::PasteTranscript => "paste-transcript",
            TrayItem::ScreenShare => "screen-share-toggle",
            TrayItem::CheckForUpdates => "check-for-updates",
            TrayItem::Quit => "quit",
            TrayItem::FirstMeeting => "cal-0",
            TrayItem::SecondMeeting => "cal-1",
            TrayItem::ThirdMeeting => "cal-2",
        }
    }

    pub fn label(self, state: ShellState) -> (label: &'static str)
        ensures
            label@ == item_label(self, state),
    {
        match self {
            TrayItem::Open => "Open Minutes",
            TrayItem::Record => "Start Recording",
            TrayItem::QuickThought => "Quick Thought",
            TrayItem::Sensitive => "Sensitive Meeting",
            TrayItem::Stop => "Stop Recording",
            TrayItem::Coach => coach_label(state.copilot),
            TrayItem::Voice => voice_label(state.voice),
            TrayItem::MicMute => mic_mute_label(state.mic_muted),
            TrayItem::Note => "Add Note...",
            TrayItem::CopyLastDictation => "Copy Last Dictation",
            TrayItem::PasteLastDictation => "Paste Last Dictation",
            TrayItem::ReprocessLastDictation => "Reprocess Last Dictation",
            TrayItem::Assistant => "Recall",
            TrayItem::List => "Open Meetings Folder",
            TrayItem::PasteSummary => "Copy Latest Summary",
            TrayItem::PasteTranscript => "Copy Latest Transcript",
            TrayItem::ScreenShare => screen_share_label(state.hidden_from_screen_share),
            TrayItem::CheckForUpdates => "Check for Updates",
            TrayItem::Quit => "Quit Minutes",
            _ => "",
        }
    }

    pub fn action(self) -> (action: TrayAction)
        ensures
            action == item_action(self),
    {
        match self {
            TrayItem::Open => TrayAction::ShowMain,
            TrayItem::Record => TrayAction::StartRecording,
            TrayItem::QuickThought => TrayAction::StartQuickThought,
            TrayItem::Sensitive => TrayAction::ToggleSensitive,
            TrayItem::Stop => TrayAction::Stop,
            TrayItem::Coach => TrayAction::ToggleCoach,
            TrayItem::Voice => TrayAction::ToggleVoice,
            TrayItem::MicMute => TrayAction::ToggleMicMute,
            TrayItem::Note => TrayAction::AddNote,
            TrayItem::CopyLastDictation => TrayAction::CopyLastDictation,
            TrayItem::PasteLastDictation => TrayAction::PasteLastDictation,
            TrayItem::ReprocessLastDictation => TrayAction::ReprocessLastDictation,
            TrayItem::Assistant => TrayAction::OpenAssistant,
            TrayItem::List => TrayAction::OpenMeetingsFolder,
            TrayItem::PasteSummary => TrayAction::CopyLatestSummary,
            TrayItem::PasteTranscript => TrayAction::CopyLatestTranscript,
            TrayItem::ScreenShare => TrayAction::ToggleScreenShare,
            TrayItem::CheckForUpdates => TrayAction::CheckForUpdates,
            TrayItem::Quit => TrayAction::Quit,
            TrayItem::FirstMeeting => TrayAction::StartRecording,
            TrayItem::SecondMeeting => TrayAction::StartRecording,
            TrayItem::ThirdMeeting => TrayAction::StartRecording,
        }
    }
}

/// The item with this id.
pub open spec fn item_with_id(id: Seq<char>) -> Option<TrayItem> {
    if id == "open"@ {
        Some(TrayItem::Open)
    } else if id == "record"@ {
        Some(TrayItem::Record)
    } else if id == "quick-thought"@ {
        Some(TrayItem::QuickThought)
    } else if id == "sensitive"@ {
        Some(TrayItem::Sensitive)
    } else if id == "stop"@ {
        Some(TrayItem::Stop)
    } else if id == "coach-toggle"@ {
        Some(TrayItem::Coach)
    } else if id == "voice-toggle"@ {
        Some(TrayItem::Voice)
    } else if id == "mic-mute-toggle"@ {
        Some(TrayItem::MicMute)
    } else if id == "note"@ {
        Some(TrayItem::Note)
    } else if id == "copy-last-dictation"@ {
        Some(TrayItem::CopyLastDictation)
    } else if id == "paste-last-dictation"@ {
        Some(TrayItem::PasteLastDictation)
    } else if id == "reprocess-last-dictation"@ {
        Some(TrayItem::ReprocessLastDictation)
    } else if id == "assistant"@ {
        Some(TrayItem::Assistant)
    } else if id == "list"@ {
        Some(TrayItem::List)
    } else if id == "paste-summary"@ {
        Some(TrayItem::PasteSummary)
    } else if id == "paste-transcript"@ {
        Some(TrayItem::PasteTranscript)
    } else if id == "screen-share-toggle"@ {
        Some(TrayItem::ScreenShare)
    } else if id == "check-for-updates"@ {
        Some(TrayItem::CheckForUpdates)
    } else if id == "quit"@ {
        Some(TrayItem::Quit)
    } else if id == "cal-0"@ {
        Some(TrayItem::FirstMeeting)
    } else if id == "cal-1"@ {
        Some(TrayItem::SecondMeeting)
    } else if id == "cal-2"@ {
        Some(TrayItem::ThirdMeeting)
    } else {
        None
    }
}

pub fn tray_item_with_id(id: &str) -> (item: Option<TrayItem>)
    ensures
        item == item_with_id(id@),
{
    if same_text(id, "open") {
        Some(TrayItem::Open)
    } else if same_text(id, "record") {
        Some(TrayItem::Record)
    } else if same_text(id, "quick-thought") {
        Some(TrayItem::QuickThought)
    } else if same_text(id, "sensitive") {
        Some(TrayItem::Sensitive)
    } else if same_text(id, "stop") {
        Some(TrayItem::Stop)
    } else if same_text(id, "coach-toggle") {
        Some(TrayItem::Coach)
    } else if same_text(id, "voice-toggle") {
        Some(TrayItem::Voice)
    } else if same_text(id, "mic-mute-toggle") {
        Some(TrayItem::MicMute)
    } else if same_text(id, "note") {
        Some(TrayItem::Note)
    } else if same_text(id, "copy-last-dictation") {
        Some(TrayItem::CopyLastDictation)
    } else if same_text(id, "paste-last-dictation") {
        Some(TrayItem::PasteLastDictation)
    } else if same_text(id, "reprocess-last-dictation") {
        Some(TrayItem::ReprocessLastDictation)
    } else if same_text(id, "assistant") {
        Some(TrayItem::Assistant)
    } else if same_text(id, "list") {
        Some(TrayItem::List)
    } else if same_text(id, "paste-summary") {
        Some(TrayItem::PasteSummary)
    } else if same_text(id, "paste-transcript") {
        Some(TrayItem::PasteTranscript)
    } else if same_text(id, "screen-share-toggle") {
        Some(TrayItem::ScreenShare)
    } else if same_text(id, "check-for-updates") {
        Some(TrayItem::CheckForUpdates)
    } else if same_text(id, "quit") {
        Some(TrayItem::Quit)
    } else if same_text(id, "cal-0") {
        Some(TrayItem::FirstMeeting)
    } else if same_text(id, "cal-1") {
        Some(TrayItem::SecondMeeting)
    } else if same_text(id, "cal-2") {
        Some(TrayItem::ThirdMeeting)
    } else {
        None
    }
}

/// What a click on the item with this id does.
pub fn tray_action(id: &str) -> (action: TrayAction)
    ensures
        action == (match item_with_id(id@) {
            Some(item) => item_action(item),
            None => TrayAction::Nothing,
        }),
{
    match tray_item_with_id(id) {
        Some(item) => item.action(),
        None => TrayAction::Nothing,
    }
}

/// Every item is found by its id, and so its click does something.
pub proof fn lemma_every_item_is_handled(item: TrayItem)
    ensures
        item_with_id(item_id(item)) == Some(item),
        item_action(item) != TrayAction::Nothing,
{
    reveal_strlit("open");
    reveal_strlit("record");
    reveal_strlit("quick-thought");
    reveal_strlit("sensitive");
    reveal_strlit("stop");
    reveal_strlit("coach-toggle");
    reveal_strlit("voice-toggle");
    reveal_strlit("mic-mute-toggle");
    reveal_strlit("note");
    reveal_strlit("copy-last-dictation");
    reveal_strlit("paste-last-dictation");
    reveal_strlit("reprocess-last-dictation");
    reveal_strlit("assistant");
    reveal_strlit("list");
    reveal_strlit("paste-summary");
    reveal_strlit("paste-transcript");
    reveal_strlit("screen-share-toggle");
    reveal_strlit("check-for-updates");
    reveal_strlit("quit");
    reveal_strlit("cal-0");
    reveal_strlit("cal-1");
    reveal_strlit("cal-2");
    assert(
        "open"@.len() == 4
        && "record"@.len() == 6
        && "quick-thought"@.len() == 13
        && "sensitive"@.len() == 9
        && "stop"@.len() == 4
        && "coach-toggle"@.len() == 12
        && "voice-toggle"@.len() == 12
        && "mic-mute-toggle"@.len() == 15
        && "note"@.len() == 4
        && "copy-last-dictation"@.len() == 19
        && "paste-last-dictation"@.len() == 20
        && "reprocess-last-dictation"@.len() == 24
        && "assistant"@.len() == 9
        && "list"@.len() == 4
        && "paste-summary"@.len() == 13
        && "paste-transcript"@.len() == 16
        && "screen-share-toggle"@.len() == 19
        && "check-for-updates"@.len() == 17
        && "quit"@.len() == 4
        && "cal-0"@.len() == 5
        && "cal-1"@.len() == 5
        && "cal-2"@.len() == 5
    );
    assert(
        "open"@[0] == 'o'
        && "stop"@[0] == 's'
        && "note"@[0] == 'n'
        && "list"@[0] == 'l'
        && "quit"@[0] == 'q'
        && "quick-thought"@[0] == 'q'
        && "paste-summary"@[0] == 'p'
        && "sensitive"@[0] == 's'
        && "assistant"@[0] == 'a'
        && "coach-toggle"@[0] == 'c'
        && "voice-toggle"@[0] == 'v'
        && "copy-last-dictation"@[0] == 'c'
        && "screen-share-toggle"@[0] == 's'
        && "cal-0"@[4] == '0'
        && "cal-1"@[4] == '1'
        && "cal-2"@[4] == '2'
    );
}

/// What the menu is built for.
#[derive(Copy, Clone, Debug, Eq, PartialEq, Structural)]
pub struct TrayMenuOptions {
    /// A recording is on already.
    pub recording: bool,
    /// This build can open a voice session. One that cannot shows no Voice
    /// entry at all, rather than one that always errors.
    pub voice: bool,
    /// The latest artifact can be copied on this platform.
    pub artifact_copy: bool,
}

/// A line of the menu.
#[derive(Copy, Clone, Debug, Eq, PartialEq, Structural)]
pub enum TrayEntry {
    Item { item: TrayItem, enabled: bool },
    Separator,
}

pub open spec fn entry(item: TrayItem) -> TrayEntry {
    TrayEntry::Item { item, enabled: true }
}

/// The lines of the menu, from top to bottom.
pub open spec fn tray_menu_layout(options: TrayMenuOptions) -> Seq<TrayEntry> {
    seq![
        entry(TrayItem::Open),
        TrayEntry::Separator,
        TrayEntry::Item { item: TrayItem::Record, enabled: !options.recording },
        TrayEntry::Item { item: TrayItem::QuickThought, enabled: !options.recording },
        entry(TrayItem::Sensitive),
        TrayEntry::Item { item: TrayItem::Stop, enabled: options.recording },
        entry(TrayItem::Coach),
    ] + (if options.voice {
        seq![entry(TrayItem::Voice)]
    } else {
        Seq::empty()
    }) + seq![
        entry(TrayItem::MicMute),
        TrayEntry::Separator,
        entry(TrayItem::Note),
        entry(TrayItem::CopyLastDictation),
        entry(TrayItem::PasteLastDictation),
        entry(TrayItem::ReprocessLastDictation),
        entry(TrayItem::Assistant),
        entry(TrayItem::List),
    ] + (if options.artifact_copy {
        seq![entry(TrayItem::PasteSummary), entry(TrayItem::PasteTranscript)]
    } else {
        Seq::empty()
    }) + seq![
        TrayEntry::Separator,
        entry(TrayItem::ScreenShare),
        entry(TrayItem::CheckForUpdates),
        entry(TrayItem::Quit),
    ]
}

fn enabled(item: TrayItem) -> (line: TrayEntry)
    ensures
        line == entry(item),
{
    TrayEntry::Item { item, enabled: true }
}

pub fn tray_menu(options: TrayMenuOptions) -> (menu: Vec<TrayEntry>)
    ensures
        menu@ == tray_menu_layout(options),
{
    let mut menu: Vec<TrayEntry> = Vec::new();
    menu.push(enabled(TrayItem::Open));
    menu.push(TrayEntry::Separator);
    menu.push(TrayEntry::Item { item: TrayItem::Record, enabled: !options.recording });
    menu.push(TrayEntry::Item { item: TrayItem::QuickThought, enabled: !options.recording });
    menu.push(enabled(TrayItem::Sensitive));
    menu.push(TrayEntry::Item { item: TrayItem::Stop, enabled: options.recording });
    menu.push(enabled(TrayItem::Coach));
    if options.voice {
        menu.push(enabled(TrayItem::Voice));
    }
    menu.push(enabled(TrayItem::MicMute));
    menu.push(TrayEntry::Separator);
    menu.push(enabled(TrayItem::Note));
    menu.push(enabled(TrayItem::CopyLastDictation));
    menu.push(enabled(TrayItem::PasteLastDictation));
    menu.push(enabled(TrayItem::ReprocessLastDictation));
    menu.push(enabled(TrayItem::Assistant));
    menu.push(enabled(TrayItem::List));
    if options.artifact_copy {
        menu.push(enabled(TrayItem::PasteSummary));
        menu.push(enabled(TrayItem::PasteTranscript));
    }
    menu.push(TrayEntry::Separator);
    menu.push(enabled(TrayItem::ScreenShare));
    menu.push(enabled(TrayItem::CheckForUpdates));
    menu.push(enabled(TrayItem::Quit));
    proof {
        assert(menu@ =~= tray_menu_layout(options));
    }
    menu
}

/// The items whose labels are put into another language in place. Stop's
/// label goes with the activity.
pub open spec fn relabelled_items() -> Seq<TrayItem> {
    seq![
        TrayItem::Open,
        TrayItem::Record,
        TrayItem::QuickThought,
        TrayItem::Sensitive,
        TrayItem::Coach,
        TrayItem::Voice,
        TrayItem::MicMute,
        TrayItem::Note,
        TrayItem::CopyLastDictation,
        TrayItem::PasteLastDictation,
        TrayItem::ReprocessLastDictation,
        TrayItem::Assistant,
        TrayItem::List,
        TrayItem::PasteSummary,
        TrayItem::PasteTranscript,
        TrayItem::ScreenShare,
        TrayItem::CheckForUpdates,
        TrayItem::Quit,
    ]
}

/// The labels to put into another language after a switch, with the check
/// marks that the current state gives them.
pub fn rebuild_localized_shell(state: ShellState) -> (labels: Vec<(TrayItem, &'static str)>)
    ensures
        labels@.len() == relabelled_items().len(),
        forall|i: int|
            0 <= i < labels@.len() ==> (#[trigger] labels@[i]).0 == relabelled_items()[i]
                && labels@[i].1@ == item_label(relabelled_items()[i], state),
{
    let items: Vec<TrayItem> = vec![
        TrayItem::Open,
        TrayItem::Record,
        TrayItem::QuickThought,
        TrayItem::Sensitive,
        TrayItem::Coach,
        TrayItem::Voice,
        TrayItem::MicMute,
        TrayItem::Note,
        TrayItem::CopyLastDictation,
        TrayItem::PasteLastDictation,
        TrayItem::ReprocessLastDictation,
        TrayItem::Assistant,
        TrayItem::List,
        TrayItem::PasteSummary,
        TrayItem::PasteTranscript,
        TrayItem::ScreenShare,
        TrayItem::CheckForUpdates,
        TrayItem::Quit,
    ];
    proof {
        assert(items@ =~= relabelled_items());
    }
    let mut labels: Vec<(TrayItem, &'static str)> = Vec::new();
    let mut i: usize = 0;
    while i < items.len()
        invariant
            i <= items.len(),
            items@ == relabelled_items(),
            labels@.len() == i,
            forall|j: int|
                0 <= j < i ==> (#[trigger] labels@[j]).0 == items@[j] && labels@[j].1@
                    == item_label(items@[j], state),
        decreases items.len() - i,
    {
        labels.push((items[i], items[i].label(state)));
        i += 1;
    }
    labels
}

/// After a switch of language no line of the menu but Stop is left in the old
/// one.
pub proof fn lemma_every_line_is_relabelled(options: TrayMenuOptions, i: int)
    requires
        0 <= i < tray_menu_layout(options).len(),
    ensures
        tray_menu_layout(options)[i] matches TrayEntry::Item { item, .. } ==> item
            == TrayItem::Stop || relabelled_items().contains(item),
{
    if let TrayEntry::Item { item, .. } = tray_menu_layout(options)[i] {
        let r = relabelled_items();

        assert(r[0] == TrayItem::Open
            && r[1] == TrayItem::Record
            && r[2] == TrayItem::QuickThought
            && r[3] == TrayItem::Sensitive
            && r[4] == TrayItem::Coach
            && r[5] == TrayItem::Voice
            && r[6] == TrayItem::MicMute
            && r[7] == TrayItem::Note
            && r[8] == TrayItem::CopyLastDictation
            && r[9] == TrayItem::PasteLastDictation
            && r[10] == TrayItem::ReprocessLastDictation
            && r[11] == TrayItem::Assistant
            && r[12] == TrayItem::List
            && r[13] == TrayItem::PasteSummary
            && r[14] == TrayItem::PasteTranscript
            && r[15] == TrayItem::ScreenShare
            && r[16] == TrayItem::CheckForUpdates
            && r[17] == TrayItem::Quit);
    }
}

/// Whether the menu has a line for this item, enabled or not as said.
pub open spec fn offers(options: TrayMenuOptions, item: TrayItem, enabled: bool) -> bool {
    tray_menu_layout(options).contains(TrayEntry::Item { item, enabled })
}

/// What the menu offers: Record and Quick Thought while no recording is on,
/// Stop while one is, Voice and the copies only where this build has them, and
/// everything else always.
#[verifier::rlimit(50)]
pub proof fn lemma_what_the_menu_offers(options: TrayMenuOptions)
    ensures
        offers(options, TrayItem::Record, !options.recording),
        offers(options, TrayItem::QuickThought, !options.recording),
        offers(options, TrayItem::Stop, options.recording),
        offers(options, TrayItem::Open, true),
        offers(options, TrayItem::Sensitive, true),
        offers(options, TrayItem::Coach, true),
        offers(options, TrayItem::MicMute, true),
        offers(options, TrayItem::Note, true),
        offers(options, TrayItem::CopyLastDictation, true),
        offers(options, TrayItem::PasteLastDictation, true),
        offers(options, TrayItem::ReprocessLastDictation, true),
        offers(options, TrayItem::Assistant, true),
        offers(options, TrayItem::List, true),
        offers(options, TrayItem::ScreenShare, true),
        offers(options, TrayItem::CheckForUpdates, true),
        offers(options, TrayItem::Quit, true),
        options.voice ==> offers(options, TrayItem::Voice, true),
        options.artifact_copy ==> offers(options, TrayItem::PasteSummary, true) && offers(
            options,
            TrayItem::PasteTranscript,
            true,
        ),
        tray_menu_layout(options).len() == 19 + (if options.voice {
            1int
        } else {
            0
        }) + (if options.artifact_copy {
            2int
        } else {
            0
        }),
{
    let menu = tray_menu_layout(options);
    let v: int = if options.voice {
        1
    } else {
        0
    };
    let c: int = if options.artifact_copy {
        2
    } else {
        0
    };
    assert(menu[0] == entry(TrayItem::Open));
    assert(menu[2] == (TrayEntry::Item { item: TrayItem::Record, enabled: !options.recording }));
    assert(menu[3] == (TrayEntry::Item {
        item: TrayItem::QuickThought,
        enabled: !options.recording,
    }));
    assert(menu[4] == entry(TrayItem::Sensitive));
    assert(menu[5] == (TrayEntry::Item { item: TrayItem::Stop, enabled: options.recording }));
    assert(menu[6] == entry(TrayItem::Coach));
    if options.voice {
        assert(menu[7] == entry(TrayItem::Voice));
    }
    assert(menu[7 + v] == entry(TrayItem::MicMute));
    assert(menu[9 + v] == entry(TrayItem::Note));
    assert(menu[10 + v] == entry(TrayItem::CopyLastDictation));
    assert(menu[11 + v] == entry(TrayItem::PasteLastDictation));
    assert(menu[12 + v] == entry(TrayItem::ReprocessLastDictation));
    assert(menu[13 + v] == entry(TrayItem::Assistant));
    assert(menu[14 + v] == entry(TrayItem::List));
    if options.artifact_copy {
        assert(menu[15 + v] == entry(TrayItem::PasteSummary));
        assert(menu[16 + v] == entry(TrayItem::PasteTranscript));
    }
    assert(menu[16 + v + c] == entry(TrayItem::ScreenShare));
    assert(menu[17 + v + c] == entry(TrayItem::CheckForUpdates));
    assert(menu[18 + v + c] == entry(TrayItem::Quit));
}

/// What this build or platform lacks is not in the menu at all, and the
/// switches are never offered the wrong way round.
#[verifier::rlimit(50)]
pub proof fn lemma_what_the_menu_does_not_offer(options: TrayMenuOptions, enabled: bool)
    ensures
        !options.voice ==> !offers(options, TrayItem::Voice, enabled),
        !options.artifact_copy ==> !offers(options, TrayItem::PasteSummary, enabled) && !offers(
            options,
            TrayItem::PasteTranscript,
            enabled,
        ),
        !offers(options, TrayItem::Record, options.recording),
        !offers(options, TrayItem::QuickThought, options.recording),
        !offers(options, TrayItem::Stop, !options.recording),
        !offers(options, TrayItem::FirstMeeting, enabled),
{
}

/// Two items of the menu do two things, but for the meetings, each of which
/// starts a recording.
pub proof fn lemma_items_do_different_things(a: TrayItem, b: TrayItem)
    requires
        a != b,
        item_action(a) == item_action(b),
    ensures
        item_action(a) == TrayAction::StartRecording,
        a == TrayItem::Record || a == TrayItem::FirstMeeting || a == TrayItem::SecondMeeting || a
            == TrayItem::ThirdMeeting,
        b == TrayItem::Record || b == TrayItem::FirstMeeting || b == TrayItem::SecondMeeting || b
            == TrayItem::ThirdMeeting,
{
}

/// A click does what its line says: by the id of the line.
pub proof fn lemma_ids_lead_to_their_actions()
    ensures
        item_with_id("record"@) matches Some(i) && item_action(i) == TrayAction::StartRecording,
        item_with_id("stop"@) matches Some(i) && item_action(i) == TrayAction::Stop,
        item_with_id("open"@) matches Some(i) && item_action(i) == TrayAction::ShowMain,
        item_with_id("quit"@) matches Some(i) && item_action(i) == TrayAction::Quit,
        item_with_id("note"@) matches Some(i) && item_action(i) == TrayAction::AddNote,
        item_with_id("list"@) matches Some(i) && item_action(i) == TrayAction::OpenMeetingsFolder,
        item_with_id("assistant"@) matches Some(i) && item_action(i) == TrayAction::OpenAssistant,
        item_with_id("sensitive"@) matches Some(i) && item_action(i)
            == TrayAction::ToggleSensitive,
        item_with_id("quick-thought"@) matches Some(i) && item_action(i)
            == TrayAction::StartQuickThought,
        item_with_id("coach-toggle"@) matches Some(i) && item_action(i) == TrayAction::ToggleCoach,
        item_with_id("voice-toggle"@) matches Some(i) && item_action(i) == TrayAction::ToggleVoice,
        item_with_id("mic-mute-toggle"@) matches Some(i) && item_action(i)
            == TrayAction::ToggleMicMute,
        item_with_id("copy-last-dictation"@) matches Some(i) && item_action(i)
            == TrayAction::CopyLastDictation,
        item_with_id("paste-last-dictation"@) matches Some(i) && item_action(i)
            == TrayAction::PasteLastDictation,
        item_with_id("reprocess-last-dictation"@) matches Some(i) && item_action(i)
            == TrayAction::ReprocessLastDictation,
        item_with_id("paste-summary"@) matches Some(i) && item_action(i)
            == TrayAction::CopyLatestSummary,
        item_with_id("paste-transcript"@) matches Some(i) && item_action(i)
            == TrayAction::CopyLatestTranscript,
        item_with_id("screen-share-toggle"@) matches Some(i) && item_action(i)
            == TrayAction::ToggleScreenShare,
        item_with_id("check-for-updates"@) matches Some(i) && item_action(i)
            == TrayAction::CheckForUpdates,
        item_with_id("cal-0"@) matches Some(i) && item_action(i) == TrayAction::StartRecording,
        item_with_id("cal-1"@) matches Some(i) && item_action(i) == TrayAction::StartRecording,
        item_with_id("cal-2"@) matches Some(i) && item_action(i) == TrayAction::StartRecording,
{
    lemma_every_item_is_handled(TrayItem::Open);
    lemma_every_item_is_handled(TrayItem::Record);
    lemma_every_item_is_handled(TrayItem::QuickThought);
    lemma_every_item_is_handled(TrayItem::Sensitive);
    lemma_every_item_is_handled(TrayItem::Stop);
    lemma_every_item_is_handled(TrayItem::Coach);
    lemma_every_item_is_handled(TrayItem::Voice);
    lemma_every_item_is_handled(TrayItem::MicMute);
    lemma_every_item_is_handled(TrayItem::Note);
    lemma_every_item_is_handled(TrayItem::CopyLastDictation);
    lemma_every_item_is_handled(TrayItem::PasteLastDictation);
    lemma_every_item_is_handled(TrayItem::ReprocessLastDictation);
    lemma_every_item_is_handled(TrayItem::Assistant);
    lemma_every_item_is_handled(TrayItem::List);
    lemma_every_item_is_handled(TrayItem::PasteSummary);
    lemma_every_item_is_handled(TrayItem::PasteTranscript);
    lemma_every_item_is_handled(TrayItem::ScreenShare);
    lemma_every_item_is_handled(TrayItem::CheckForUpdates);
    lemma_every_item_is_handled(TrayItem::Quit);
    lemma_every_item_is_handled(TrayItem::FirstMeeting);
    lemma_every_item_is_handled(TrayItem::SecondMeeting);
    lemma_every_item_is_handled(TrayItem::ThirdMeeting);
}

/// A toggle carries its check mark exactly while it is on, and no toggle shows
/// the state of another.
pub proof fn lemma_check_marks(state: ShellState)
    ensures
        item_label(TrayItem::Coach, state) == (if state.copilot {
            "Coach ✓"@
        } else {
            "Coach"@
        }),
        item_label(TrayItem::Voice, state) == (if state.voice {
            "Voice ✓"@
        } else {
            "Voice"@
        }),
        item_label(TrayItem::MicMute, state) == (if state.mic_muted {
            "Mute My Mic (Recording Only) ✓"@
        } else {
            "Mute My Mic (Recording Only)"@
        }),
        item_label(TrayItem::ScreenShare, state) == (if state.hidden_from_screen_share {
            "Hide from Screen Share ✓"@
        } else {
            "Hide from Screen Share"@
        }),
{
}

/// What the other lines say, in any state.
pub proof fn lemma_fixed_labels(state: ShellState)
    ensures
        item_label(TrayItem::Open, state) == "Open Minutes"@,
        item_label(TrayItem::Record, state) == "Start Recording"@,
        item_label(TrayItem::QuickThought, state) == "Quick Thought"@,
        item_label(TrayItem::Sensitive, state) == "Sensitive Meeting"@,
        item_label(TrayItem::Stop, state) == "Stop Recording"@,
        item_label(TrayItem::Note, state) == "Add Note..."@,
        item_label(TrayItem::CopyLastDictation, state) == "Copy Last Dictation"@,
        item_label(TrayItem::PasteLastDictation, state) == "Paste Last Dictation"@,
        item_label(TrayItem::ReprocessLastDictation, state) == "Reprocess Last Dictation"@,
        item_label(TrayItem::Assistant, state) == "Recall"@,
        item_label(TrayItem::List, state) == "Open Meetings Folder"@,
        item_label(TrayItem::PasteSummary, state) == "Copy Latest Summary"@,
        item_label(TrayItem::PasteTranscript, state) == "Copy Latest Transcript"@,
        item_label(TrayItem::CheckForUpdates, state) == "Check for Updates"@,
        item_label(TrayItem::Quit, state) == "Quit Minutes"@,
{
}

} // verus!
