//! Watching the meetings folder: which changes make the list of meetings
//! refresh, when that is told of, and which folder is watched.

use crate::text;
use crate::text::{chars_of, same_ignoring_ascii_case};
use vstd::prelude::*;

verus! {

/// What of a file changed.
#[derive(Debug, Clone, Copy, PartialEq, Eq, Structural)]
pub enum FileChange {
    /// The system does not say.
    Any,
    Data,
    /// Its metadata, such as the time of its last access.
    Metadata,
    Name,
    Other,
}

/// What happened to a file.
#[derive(Debug, Clone, Copy, PartialEq, Eq, Structural)]
pub enum FileEventKind {
    /// The system does not say.
    Any,
    /// It was opened, read or closed.
    Access,
    Create,
    Modify(FileChange),
    Remove,
    Other,
}

/// Whether an event can change what the list of meetings shows: all do but
/// reading a file and changing its metadata.
pub open spec fn content_change(kind: FileEventKind) -> bool {
    kind != FileEventKind::Access && kind != FileEventKind::Modify(FileChange::Metadata)
}

/// Reads/atime-only touches never change what the meetings list shows, but
/// desktop search indexers commonly `stat` or touch atime on files under a
/// watched, recursive home-dir tree. Those are filtered out instead of
/// treating every touch as a reason to rebuild the list.
pub fn is_content_change(kind: FileEventKind) -> (yes: bool)
    ensures
        yes == content_change(kind),
{
    match kind {
        FileEventKind::Access => false,
        FileEventKind::Modify(FileChange::Metadata) => false,
        _ => true,
    }
}

/// The extension of a file name: what stands behind its last dot. There is
/// none without a dot, nor where the only dot is the first character.
pub open spec fn extension(name: Seq<char>) -> Option<Seq<char>> {
    let ending = text::behind_last(name, '.');
    if ending.len() + 1 < name.len() {
        Some(ending)
    } else {
        None
    }
}

/// Whether a file is a meeting: its extension is `md`, whatever the case.
pub open spec fn meeting_file(name: Seq<char>) -> bool {
    extension(name) matches Some(ext) && text::ascii_lowercase(ext) == text::ascii_lowercase("md"@)
}

/// Whether a path is that of a meeting, by its file name; a path that has none
/// is not.
pub open spec fn meeting_path(file_name: Option<String>) -> bool {
    file_name matches Some(name) && meeting_file(name@)
}

fn is_meeting_file(name: &str) -> (yes: bool)
    ensures
        yes == meeting_file(name@),
{
    let chars = chars_of(name);
    let ending = text::behind_last_chars(chars.as_slice(), '.');
    ending.len() < chars.len() && chars.len() - ending.len() > 1 && same_ignoring_ascii_case(
        ending,
        chars_of("md").as_slice(),
    )
}

/// Whether one of the paths, given by their file names, is that of a meeting.
pub fn should_refresh_meetings_for_paths(file_names: &[Option<String>]) -> (yes: bool)
    ensures
        yes == exists|i: int|
            0 <= i < file_names@.len() && meeting_path(#[trigger] file_names@[i]),
{
    let mut i: usize = 0;
    while i < file_names.len()
        invariant
            i <= file_names.len(),
            forall|j: int| 0 <= j < i ==> !meeting_path(#[trigger] file_names@[j]),
        decreases file_names.len() - i,
    {
        if let Some(name) = &file_names[i] {
            if is_meeting_file(name.as_str()) {
                proof {
                    assert(meeting_path(file_names@[i as int]));
                }
                return true;
            }
        }
        i += 1;
    }
    false
}

/// What stands behind the last dot of a file name is its extension, unless
/// that dot begins the name.
pub proof fn lemma_last_suffix_decides(stem: Seq<char>, suffix: Seq<char>)
    requires
        stem.len() > 0,
        !suffix.contains('.'),
    ensures
        extension(stem.push('.') + suffix) == Some(suffix),
        extension(seq!['.'] + suffix) is None,
{
    lemma_behind_last(stem.push('.'), suffix);
    lemma_behind_last(seq!['.'], suffix);
}

proof fn lemma_behind_last(head: Seq<char>, tail: Seq<char>)
    requires
        head.len() > 0,
        head.last() == '.',
        !tail.contains('.'),
    ensures
        text::behind_last(head + tail, '.') == tail,
    decreases tail.len(),
{
    let whole = head + tail;
    if tail.len() == 0 {
        assert(whole =~= head);
        assert(tail =~= Seq::empty());
    } else {
        assert(tail.contains(tail.last()));
        assert(whole.last() == tail.last());
        assert(whole.drop_last() =~= head + tail.drop_last());
        assert forall|c: char| tail.drop_last().contains(c) implies tail.contains(c) by {
            let i = choose|i: int| 0 <= i < tail.len() - 1 && tail.drop_last()[i] == c;
            assert(tail[i] == c);
        }
        lemma_behind_last(head, tail.drop_last());
        assert(tail.drop_last().push(tail.last()) =~= tail);
    }
}

/// Whether an event makes the list refresh.
pub fn event_refreshes_meetings(kind: FileEventKind, file_names: &[Option<String>]) -> (yes: bool)
    ensures
        yes == (content_change(kind) && exists|i: int|
            0 <= i < file_names@.len() && meeting_path(#[trigger] file_names@[i])),
{
    is_content_change(kind) && should_refresh_meetings_for_paths(file_names)
}

/// Whether the watcher is bound to another folder.
#[derive(Debug, Clone, Copy, PartialEq, Eq, Structural)]
pub enum Rebind {
    /// The folder is the one that is watched.
    Keep,
    /// Stop watching the old folder and watch the new one.
    Rebind,
}

/// The components of a path as the system writes them.
pub open spec fn components(path: Seq<Vec<u8>>) -> Seq<Seq<u8>> {
    path.map_values(|part: Vec<u8>| part@)
}

fn same_bytes(a: &[u8], b: &[u8]) -> (same: bool)
    ensures
        same == (a@ == b@),
{
    if a.len() != b.len() {
        return false;
    }
    let mut i: usize = 0;
    while i < a.len()
        invariant
            i <= a.len(),
            a@.len() == b@.len(),
            forall|j: int| 0 <= j < i ==> a@[j] == b@[j],
        decreases a.len() - i,
    {
        if a[i] != b[i] {
            return false;
        }
        i += 1;
    }
    proof {
        assert(a@ =~= b@);
    }
    true
}

/// Compares the configured folder with the watched one, each given by the
/// components of its path.
pub fn rebind_watcher(configured: &[Vec<u8>], watched: &[Vec<u8>]) -> (decision: Rebind)
    ensures
        decision == (if components(configured@) == components(watched@) {
            Rebind::Keep
        } else {
            Rebind::Rebind
        }),
{
    if configured.len() != watched.len() {
        proof {
            assert(components(configured@).len() != components(watched@).len());
        }
        return Rebind::Rebind;
    }
    let mut i: usize = 0;
    while i < configured.len()
        invariant
            i <= configured.len(),
            configured@.len() == watched@.len(),
            forall|j: int| 0 <= j < i ==> (#[trigger] configured@[j])@ == watched@[j]@,
        decreases configured.len() - i,
    {
        if !same_bytes(configured[i].as_slice(), watched[i].as_slice()) {
            proof {
                assert(components(configured@)[i as int] != components(watched@)[i as int]);
            }
            return Rebind::Rebind;
        }
        i += 1;
    }
    proof {
        assert(components(configured@) =~= components(watched@));
    }
    Rebind::Keep
}

/// How long an event is waited for before the configured folder is looked at
/// again.
pub const WATCH_WAIT_MILLIS: u64 = 2000;

/// How long it has to be quiet for a burst of events to be over.
pub const BURST_QUIET_MILLIS: u64 = 250;

/// What the watcher is at.
#[derive(Debug)]
pub enum WatchPhase {
    /// Its first folder is being bound.
    Starting,
    /// The configured folder is being looked at.
    Looking,
    /// This folder is being bound in place of the watched one.
    Rebinding { folder: Vec<Vec<u8>> },
    /// An event is waited for.
    Waiting,
    /// A note has changed, and the burst of events is waited out: one save
    /// comes as many events.
    Draining,
    /// It is being told that notes have changed.
    TellingOfNotes,
    /// It is being told that the folder has changed.
    TellingOfFolder,
    Over,
}

/// The state of the watcher, with the components of the folder it watches.
#[derive(Debug)]
pub struct WatchState {
    pub watched: Vec<Vec<u8>>,
    pub phase: WatchPhase,
}

/// What happened.
#[derive(Debug)]
pub enum WatchEvent {
    /// A folder was bound.
    Bound,
    BindFailed,
    /// This is the configured folder.
    Configured(Vec<Vec<u8>>),
    /// A file event that makes the list refresh.
    Hit,
    /// Another file event.
    Miss,
    /// Nothing happened during the wait.
    Quiet,
    /// The system could not say what happened.
    Error,
    /// No event can come any more.
    Closed,
    /// The change has been told of.
    Told,
}

/// What is done next; what comes of it is the next event.
#[derive(Debug, Clone, Copy, PartialEq, Eq, Structural)]
pub enum WatchAction {
    /// Bind the first folder.
    Bind,
    /// Read the configured folder.
    LookAtFolder,
    /// Let go of the watched folder and bind the configured one.
    Rebind,
    /// Wait this long for an event.
    Wait { millis: u64 },
    /// Tell that the list has changed.
    Notify,
    /// The configured folder is the watched one from now on; tell that the
    /// list has changed.
    Adopt,
    Leave,
}

pub enum PhaseModel {
    Starting,
    Looking,
    Rebinding { folder: Seq<Seq<u8>> },
    Waiting,
    Draining,
    TellingOfNotes,
    TellingOfFolder,
    Over,
}

pub struct WatchModel {
    pub watched: Seq<Seq<u8>>,
    pub phase: PhaseModel,
}

pub enum WatchEventModel {
    Bound,
    BindFailed,
    Configured(Seq<Seq<u8>>),
    Hit,
    Miss,
    Quiet,
    Error,
    Closed,
    Told,
}

impl View for WatchPhase {
    type V = PhaseModel;

    open spec fn view(&self) -> PhaseModel {
        match *self {
            WatchPhase::Starting => PhaseModel::Starting,
            WatchPhase::Looking => PhaseModel::Looking,
            WatchPhase::Rebinding { folder } => PhaseModel::Rebinding {
                folder: components(folder@),
            },
            WatchPhase::Waiting => PhaseModel::Waiting,
            WatchPhase::Draining => PhaseModel::Draining,
            WatchPhase::TellingOfNotes => PhaseModel::TellingOfNotes,
            WatchPhase::TellingOfFolder => PhaseModel::TellingOfFolder,
            WatchPhase::Over => PhaseModel::Over,
        }
    }
}

impl View for WatchState {
    type V = WatchModel;

    open spec fn view(&self) -> WatchModel {
        WatchModel { watched: components(self.watched@), phase: self.phase@ }
    }
}

impl View for WatchEvent {
    type V = WatchEventModel;

    open spec fn view(&self) -> WatchEventModel {
        match *self {
            WatchEvent::Bound => WatchEventModel::Bound,
            WatchEvent::BindFailed => WatchEventModel::BindFailed,
            WatchEvent::Configured(folder) => WatchEventModel::Configured(components(folder@)),
            WatchEvent::Hit => WatchEventModel::Hit,
            WatchEvent::Miss => WatchEventModel::Miss,
            WatchEvent::Quiet => WatchEventModel::Quiet,
            WatchEvent::Error => WatchEventModel::Error,
            WatchEvent::Closed => WatchEventModel::Closed,
            WatchEvent::Told => WatchEventModel::Told,
        }
    }
}

/// The phase that an event leads to. One that the phase does not wait for
/// leads nowhere.
pub open spec fn phase_after(state: WatchModel, event: WatchEventModel) -> PhaseModel {
    match (state.phase, event) {
        (PhaseModel::Starting, WatchEventModel::Bound) => PhaseModel::Looking,
        (PhaseModel::Starting, WatchEventModel::BindFailed) => PhaseModel::Over,
        (PhaseModel::Looking, WatchEventModel::Configured(folder)) => if folder == state.watched {
            PhaseModel::Waiting
        } else {
            PhaseModel::Rebinding { folder }
        },
        (PhaseModel::Rebinding { .. }, WatchEventModel::Bound) => PhaseModel::TellingOfFolder,
        (PhaseModel::Rebinding { .. }, WatchEventModel::BindFailed) => PhaseModel::Waiting,
        (PhaseModel::Waiting, WatchEventModel::Hit) => PhaseModel::Draining,
        (PhaseModel::Waiting, WatchEventModel::Miss) => PhaseModel::Looking,
        (PhaseModel::Waiting, WatchEventModel::Quiet) => PhaseModel::Looking,
        (PhaseModel::Waiting, WatchEventModel::Error) => PhaseModel::Looking,
        (PhaseModel::Waiting, WatchEventModel::Closed) => PhaseModel::Over,
        (PhaseModel::Draining, WatchEventModel::Quiet) => PhaseModel::TellingOfNotes,
        (PhaseModel::Draining, WatchEventModel::Error) => PhaseModel::TellingOfNotes,
        (PhaseModel::Draining, WatchEventModel::Closed) => PhaseModel::TellingOfNotes,
        (PhaseModel::TellingOfNotes, WatchEventModel::Told) => PhaseModel::Looking,
        (PhaseModel::TellingOfFolder, WatchEventModel::Told) => PhaseModel::Waiting,
        (phase, _) => phase,
    }
}

/// The state that an event leads to. A folder takes the place of the watched
/// one once it is bound.
pub open spec fn state_after(state: WatchModel, event: WatchEventModel) -> WatchModel {
    WatchModel {
        watched: match (state.phase, event) {
            (PhaseModel::Rebinding { folder }, WatchEventModel::Bound) => folder,
            _ => state.watched,
        },
        phase: phase_after(state, event),
    }
}

/// What a phase asks for.
pub open spec fn action_in(phase: PhaseModel) -> WatchAction {
    match phase {
        PhaseModel::Starting => WatchAction::Bind,
        PhaseModel::Looking => WatchAction::LookAtFolder,
        PhaseModel::Rebinding { .. } => WatchAction::Rebind,
        PhaseModel::Waiting => WatchAction::Wait { millis: WATCH_WAIT_MILLIS },
        PhaseModel::Draining => WatchAction::Wait { millis: BURST_QUIET_MILLIS },
        PhaseModel::TellingOfNotes => WatchAction::Notify,
        PhaseModel::TellingOfFolder => WatchAction::Adopt,
        PhaseModel::Over => WatchAction::Leave,
    }
}

pub open spec fn watch_outcome(state: WatchModel, event: WatchEventModel) -> (
    WatchModel,
    WatchAction,
) {
    let next = state_after(state, event);
    (next, action_in(next.phase))
}

impl WatchState {
    /// A watcher whose first folder is still to be bound.
    pub fn new(folder: Vec<Vec<u8>>) -> (state: WatchState)
        ensures
            state@ == (WatchModel { watched: components(folder@), phase: PhaseModel::Starting }),
    {
        WatchState { watched: folder, phase: WatchPhase::Starting }
    }

    /// What is to be done now.
    pub fn action(&self) -> (action: WatchAction)
        ensures
            action == action_in(self@.phase),
    {
        match &self.phase {
            WatchPhase::Starting => WatchAction::Bind,
            WatchPhase::Looking => WatchAction::LookAtFolder,
            WatchPhase::Rebinding { .. } => WatchAction::Rebind,
            WatchPhase::Waiting => WatchAction::Wait { millis: WATCH_WAIT_MILLIS },
            WatchPhase::Draining => WatchAction::Wait { millis: BURST_QUIET_MILLIS },
            WatchPhase::TellingOfNotes => WatchAction::Notify,
            WatchPhase::TellingOfFolder => WatchAction::Adopt,
            WatchPhase::Over => WatchAction::Leave,
        }
    }
}

/// Tells a file event that makes the list refresh from another one.
pub fn file_event(kind: FileEventKind, file_names: &[Option<String>]) -> (event: WatchEvent)
    ensures
        event@ == (if content_change(kind) && exists|i: int|
            0 <= i < file_names@.len() && meeting_path(#[trigger] file_names@[i]) {
            WatchEventModel::Hit
        } else {
            WatchEventModel::Miss
        }),
{
    if event_refreshes_meetings(kind, file_names) {
        WatchEvent::Hit
    } else {
        WatchEvent::Miss
    }
}

/// Takes an event; gives the next state and what is to be done in it.
pub fn watch_step(state: WatchState, event: WatchEvent) -> (step: (WatchState, WatchAction))
    ensures
        (step.0@, step.1) == watch_outcome(state@, event@),
{
    let WatchState { watched, phase } = state;
    let next = match (phase, event) {
        (WatchPhase::Starting, WatchEvent::Bound) => {
            WatchState { watched, phase: WatchPhase::Looking }
        },
        (WatchPhase::Starting, WatchEvent::BindFailed) => {
            WatchState { watched, phase: WatchPhase::Over }
        },
        (WatchPhase::Looking, WatchEvent::Configured(folder)) => {
            match rebind_watcher(folder.as_slice(), watched.as_slice()) {
                Rebind::Keep => WatchState { watched, phase: WatchPhase::Waiting },
                Rebind::Rebind => WatchState { watched, phase: WatchPhase::Rebinding { folder } },
            }
        },
        (WatchPhase::Rebinding { folder }, WatchEvent::Bound) => {
            WatchState { watched: folder, phase: WatchPhase::TellingOfFolder }
        },
        (WatchPhase::Rebinding { folder: _ }, WatchEvent::BindFailed) => {
            WatchState { watched, phase: WatchPhase::Waiting }
        },
        (WatchPhase::Waiting, WatchEvent::Hit) => {
            WatchState { watched, phase: WatchPhase::Draining }
        },
        (WatchPhase::Waiting, WatchEvent::Miss | WatchEvent::Quiet | WatchEvent::Error) => {
            WatchState { watched, phase: WatchPhase::Looking }
        },
        (WatchPhase::Waiting, WatchEvent::Closed) => {
            WatchState { watched, phase: WatchPhase::Over }
        },
        (WatchPhase::Draining, WatchEvent::Quiet | WatchEvent::Error | WatchEvent::Closed) => {
            WatchState { watched, phase: WatchPhase::TellingOfNotes }
        },
        (WatchPhase::TellingOfNotes, WatchEvent::Told) => {
            WatchState { watched, phase: WatchPhase::Looking }
        },
        (WatchPhase::TellingOfFolder, WatchEvent::Told) => {
            WatchState { watched, phase: WatchPhase::Waiting }
        },
        (phase, _) => WatchState { watched, phase },
    };
    let action = next.action();
    (next, action)
}

/// The state that a run of events leads to.
pub open spec fn state_after_all(state: WatchModel, events: Seq<WatchEventModel>) -> WatchModel
    decreases events.len(),
{
    if events.len() == 0 {
        state
    } else {
        state_after(state_after_all(state, events.drop_last()), events.last())
    }
}

/// Whether a change is being told of.
pub open spec fn telling(state: WatchModel) -> bool {
    let action = action_in(state.phase);
    action == WatchAction::Notify || action == WatchAction::Adopt
}

/// Without one of these events nothing is told of: a burst ends with a quiet
/// interval, an error or the end of all events, and a new folder is bound.
pub open spec fn brings_a_notice(event: WatchEventModel) -> bool {
    ||| event == WatchEventModel::Quiet
    ||| event == WatchEventModel::Error
    ||| event == WatchEventModel::Closed
    ||| event == WatchEventModel::Bound
}

/// Between two notices a quiet interval, an error or the end of all events
/// has ended the burst, or a new folder was bound: `events` are those from
/// the one that the first notice is out, up to the second notice.
pub proof fn lemma_notices_are_apart(state: WatchModel, events: Seq<WatchEventModel>)
    requires
        telling(state),
        events.len() > 0,
        events[0] == WatchEventModel::Told,
        telling(state_after_all(state, events)),
    ensures
        exists|i: int| 0 < i < events.len() && brings_a_notice(#[trigger] events[i]),
{
    if forall|i: int| 0 < i < events.len() ==> !brings_a_notice(#[trigger] events[i]) {
        lemma_nothing_to_tell(state, events);
    }
}

proof fn lemma_nothing_to_tell(state: WatchModel, events: Seq<WatchEventModel>)
    requires
        telling(state),
        events.len() > 0,
        events[0] == WatchEventModel::Told,
        forall|i: int| 0 < i < events.len() ==> !brings_a_notice(#[trigger] events[i]),
    ensures
        !telling(state_after_all(state, events)),
    decreases events.len(),
{
    let earlier = events.drop_last();
    if events.len() == 1 {
        assert(state_after_all(state, earlier) == state);
    } else {
        assert forall|i: int| 0 < i < earlier.len() implies !brings_a_notice(
            #[trigger] earlier[i],
        ) by {
            assert(earlier[i] == events[i]);
        }
        lemma_nothing_to_tell(state, earlier);
        assert(!brings_a_notice(events[events.len() - 1]));
    }
}

/// One burst gives one notice: from the first change of a note on the events
/// are only drained, however many there are, and when the burst is over its
/// changes are told of, once.
pub proof fn lemma_burst_is_told_of_once(
    watched: Seq<Seq<u8>>,
    burst: Seq<WatchEventModel>,
    end: WatchEventModel,
)
    requires
        burst.len() > 0,
        burst[0] == WatchEventModel::Hit,
        forall|i: int|
            0 <= i < burst.len() ==> #[trigger] burst[i] == WatchEventModel::Hit || burst[i]
                == WatchEventModel::Miss,
        end == WatchEventModel::Quiet || end == WatchEventModel::Error || end
            == WatchEventModel::Closed,
    ensures
        ({
            let waiting = WatchModel { watched, phase: PhaseModel::Waiting };
            let told = burst.push(end).push(WatchEventModel::Told);
            &&& forall|n: int|
                0 < n <= burst.len() ==> (#[trigger] state_after_all(waiting, burst.take(n))) == (
                WatchModel { watched, phase: PhaseModel::Draining })
            &&& state_after_all(waiting, burst.push(end)) == (WatchModel {
                watched,
                phase: PhaseModel::TellingOfNotes,
            })
            &&& state_after_all(waiting, told) == (WatchModel {
                watched,
                phase: PhaseModel::Looking,
            })
        }),
{
    let waiting = WatchModel { watched, phase: PhaseModel::Waiting };
    assert forall|n: int| 0 < n <= burst.len() implies (#[trigger] state_after_all(
        waiting,
        burst.take(n),
    )) == (WatchModel { watched, phase: PhaseModel::Draining }) by {
        lemma_draining(watched, burst, n);
    }
    lemma_draining(watched, burst, burst.len() as int);
    assert(burst.take(burst.len() as int) =~= burst);
    let ended = burst.push(end);
    assert(ended.drop_last() =~= burst);
    assert(state_after_all(waiting, ended) == state_after(
        state_after_all(waiting, burst),
        end,
    ));
    let told = ended.push(WatchEventModel::Told);
    assert(told.drop_last() =~= ended);
}

proof fn lemma_draining(watched: Seq<Seq<u8>>, burst: Seq<WatchEventModel>, n: int)
    requires
        0 < n <= burst.len(),
        burst[0] == WatchEventModel::Hit,
        forall|i: int|
            0 <= i < burst.len() ==> #[trigger] burst[i] == WatchEventModel::Hit || burst[i]
                == WatchEventModel::Miss,
    ensures
        state_after_all(
            (WatchModel { watched, phase: PhaseModel::Waiting }),
            burst.take(n),
        ) == (WatchModel { watched, phase: PhaseModel::Draining }),
    decreases n,
{
    let waiting = WatchModel { watched, phase: PhaseModel::Waiting };
    let seen = burst.take(n);
    assert(seen.drop_last() =~= burst.take(n - 1));
    assert(seen.last() == burst[n - 1]);
    if n == 1 {
        assert(state_after_all(waiting, burst.take(0)) == waiting);
    } else {
        lemma_draining(watched, burst, n - 1);
    }
}

/// The watched folder changes only when another one has been bound in its
/// place, and that is told of. Where it could not be bound the old folder
/// stays, and after a wait the configured one is looked at again.
pub proof fn lemma_folder_changes_once_bound(state: WatchModel, event: WatchEventModel)
    ensures
        ({
            let next = state_after(state, event);
            &&& next.watched != state.watched ==> {
                &&& state.phase == (PhaseModel::Rebinding { folder: next.watched })
                &&& event == WatchEventModel::Bound
                &&& action_in(next.phase) == WatchAction::Adopt
            }
            &&& state.phase is Rebinding && event == WatchEventModel::BindFailed ==> next == (
            WatchModel { watched: state.watched, phase: PhaseModel::Waiting })
        }),
{
}

/// What refreshes the list: everything but reading a file and changing what is
/// known about it.
pub proof fn lemma_what_refreshes_the_list()
    ensures
        content_change(FileEventKind::Any),
        content_change(FileEventKind::Create),
        content_change(FileEventKind::Remove),
        content_change(FileEventKind::Other),
        content_change(FileEventKind::Modify(FileChange::Any)),
        content_change(FileEventKind::Modify(FileChange::Data)),
        content_change(FileEventKind::Modify(FileChange::Name)),
        content_change(FileEventKind::Modify(FileChange::Other)),
        !content_change(FileEventKind::Access),
        !content_change(FileEventKind::Modify(FileChange::Metadata)),
{
}

/// A note is a file with a name and the ending `md`, however that is
/// capitalised; other endings, and files with none, are not.
#[verifier::rlimit(40)]
pub proof fn lemma_which_files_are_notes(stem: Seq<char>, ending: Seq<char>)
    requires
        stem.len() > 0,
        !ending.contains('.'),
    ensures
        meeting_file(stem.push('.') + ending) <==> ending.len() == 2 && (ending[0] == 'm'
            || ending[0] == 'M') && (ending[1] == 'd' || ending[1] == 'D'),
        !meeting_file(seq!['.'] + ending),
        !stem.contains('.') ==> !meeting_file(stem),
{
    lemma_last_suffix_decides(stem, ending);
    reveal_strlit("md");
    let lower = text::ascii_lowercase(ending);
    let wanted = text::ascii_lowercase("md"@);
    assert(lower.len() == ending.len() && wanted.len() == 2);
    assert("md"@[0] == 'm' && "md"@[1] == 'd');
    text::lemma_ascii_lowercase("md"@, 0);
    text::lemma_ascii_lowercase("md"@, 1);
    assert(wanted[0] == 'm' && wanted[1] == 'd');
    if ending.len() == 2 {
        text::lemma_ascii_lowercase(ending, 0);
        text::lemma_ascii_lowercase(ending, 1);
        if (ending[0] == 'm' || ending[0] == 'M') && (ending[1] == 'd' || ending[1] == 'D') {
            assert(lower =~= wanted);
        }
    }
    if !stem.contains('.') {
        text::lemma_cut_at(stem, stem, '.');
    }
}

/// An event is waited for two seconds at a time, so that a change of the
/// folder is seen by then, and a burst is over after a quarter of a second
/// without one.
pub proof fn lemma_how_long_is_waited(watched: Seq<Seq<u8>>)
    ensures
        watch_outcome(
            WatchModel { watched, phase: PhaseModel::Looking },
            WatchEventModel::Configured(watched),
        ).1 == (WatchAction::Wait { millis: 2000 }),
        watch_outcome(
            WatchModel { watched, phase: PhaseModel::Waiting },
            WatchEventModel::Hit,
        ).1 == (WatchAction::Wait { millis: 250 }),
{
}

/// A folder that the settings moved is bound, told of and watched from then on;
/// where it cannot be bound the old one stays.
pub proof fn lemma_moved_folder_is_followed(
    watched: Seq<Seq<u8>>,
    folder: Seq<Seq<u8>>,
)
    requires
        folder != watched,
    ensures
        ({
            let (moving, binds) = watch_outcome(
                WatchModel { watched, phase: PhaseModel::Looking },
                WatchEventModel::Configured(folder),
            );
            let (moved, tells) = watch_outcome(moving, WatchEventModel::Bound);
            let (kept, waits) = watch_outcome(moving, WatchEventModel::BindFailed);
            &&& binds == WatchAction::Rebind
            &&& moving.watched == watched
            &&& moved.watched == folder && tells == WatchAction::Adopt
            &&& kept.watched == watched && waits == (WatchAction::Wait { millis: 2000 })
            &&& watch_outcome(moved, WatchEventModel::Told).1 == (WatchAction::Wait {
                millis: 2000,
            })
        }),
{
}

/// The watch ends where its first folder cannot be bound or no event can come
/// any more, and nothing wakes it again.
pub proof fn lemma_how_a_watch_ends(watched: Seq<Seq<u8>>, event: WatchEventModel)
    ensures
        watch_outcome(
            WatchModel { watched, phase: PhaseModel::Starting },
            WatchEventModel::BindFailed,
        ).1 == WatchAction::Leave,
        watch_outcome(
            WatchModel { watched, phase: PhaseModel::Waiting },
            WatchEventModel::Closed,
        ).1 == WatchAction::Leave,
        watch_outcome(WatchModel { watched, phase: PhaseModel::Over }, event) == (
            (WatchModel { watched, phase: PhaseModel::Over }),
            WatchAction::Leave,
        ),
        watch_outcome(
            WatchModel { watched, phase: PhaseModel::Starting },
            WatchEventModel::Bound,
        ).1 == WatchAction::LookAtFolder,
{
}

/// A note that changes is told of once its burst is over, however it ends,
/// and events of other files are not.
pub proof fn lemma_a_note_is_told_of(watched: Seq<Seq<u8>>, end: WatchEventModel)
    requires
        end == WatchEventModel::Quiet || end == WatchEventModel::Error || end
            == WatchEventModel::Closed,
    ensures
        ({
            let hit = watch_outcome(
                WatchModel { watched, phase: PhaseModel::Waiting },
                WatchEventModel::Hit,
            ).0;
            let (told, tells) = watch_outcome(hit, end);
            &&& tells == WatchAction::Notify
            &&& watch_outcome(told, WatchEventModel::Told).1 == WatchAction::LookAtFolder
        }),
        watch_outcome(
            WatchModel { watched, phase: PhaseModel::Waiting },
            WatchEventModel::Miss,
        ).1 == WatchAction::LookAtFolder,
        watch_outcome(
            WatchModel { watched, phase: PhaseModel::Waiting },
            WatchEventModel::Quiet,
        ).1 == WatchAction::LookAtFolder,
        watch_outcome(
            WatchModel { watched, phase: PhaseModel::Waiting },
            WatchEventModel::Error,
        ).1 == WatchAction::LookAtFolder,
{
}

/// An event that the watch is not waiting for changes nothing.
pub proof fn lemma_unexpected_events_change_nothing(state: WatchModel, event: WatchEventModel)
    requires
        match state.phase {
            PhaseModel::Starting => event != WatchEventModel::Bound && event
                != WatchEventModel::BindFailed,
            PhaseModel::Looking => !(event is Configured),
            PhaseModel::Rebinding { .. } => event != WatchEventModel::Bound && event
                != WatchEventModel::BindFailed,
            PhaseModel::Waiting => event is Configured || event is Bound || event is BindFailed
                || event is Told,
            PhaseModel::Draining => event != WatchEventModel::Quiet && event
                != WatchEventModel::Error && event != WatchEventModel::Closed,
            PhaseModel::TellingOfNotes | PhaseModel::TellingOfFolder => event
                != WatchEventModel::Told,
            PhaseModel::Over => true,
        },
    ensures
        state_after(state, event) == state,
{
}

} // verus!
