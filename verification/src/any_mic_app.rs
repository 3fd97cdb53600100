//! Any application that holds the microphone, labelled by the bundle it
//! belongs to.
//!
//! A Slack huddle, a Discord call, FaceTime or a meeting in a browser without
//! automation permission all look the same to the audio system: some
//! application is capturing input. This names the application and leaves the
//! rest to the user. It needs no permission.

use crate::families;
use crate::families::expand_process_family;
use crate::native_apps;
use crate::native_apps::display_name_for;
use crate::processes::RunningProcess;
use crate::text;
use crate::text::{ascii_lowercase_text, same_text};
use std::collections::HashSet;
use vstd::prelude::*;

verus! {

broadcast use {vstd::std_specs::hash::group_hash_axioms, vstd::set::group_set_axioms};

/// Processes that hold the microphone without being a call: audio and speech
/// daemons, and Minutes itself while it records.
pub open spec fn system_mic_holder(lower: Seq<char>) -> bool {
    ||| lower == "coreaudiod"@
    ||| lower == "corespeechd"@
    ||| lower == "assistantd"@
    ||| lower == "siriactionsd"@
    ||| lower == "sirincservice"@
    ||| lower == "com.apple.speechrecognitioncore.speechrecognitionserver"@
    ||| lower == "minutes"@
    ||| lower == "minutes dev"@
    ||| lower == "minutes-app"@
    ||| lower == "minutes-cli"@
    ||| lower == "minutes-apple-speech-worker"@
}

pub fn is_system_mic_holder(lower: &str) -> (yes: bool)
    ensures
        yes == system_mic_holder(lower@),
{
    same_text(lower, "coreaudiod") || same_text(lower, "corespeechd") || same_text(
        lower,
        "assistantd",
    ) || same_text(lower, "siriactionsd") || same_text(lower, "sirincservice") || same_text(
        lower,
        "com.apple.speechrecognitioncore.speechrecognitionserver",
    ) || same_text(lower, "minutes") || same_text(lower, "minutes dev") || same_text(
        lower,
        "minutes-app",
    ) || same_text(lower, "minutes-cli") || same_text(lower, "minutes-apple-speech-worker")
}

/// The process with this pid; of several, the last in the table.
pub open spec fn process_with_pid(processes: Seq<RunningProcess>, pid: u32) -> Option<
    RunningProcess,
>
    decreases processes.len(),
{
    if processes.len() == 0 {
        None
    } else if processes.last().pid == pid {
        Some(processes.last())
    } else {
        process_with_pid(processes.drop_last(), pid)
    }
}

fn find_pid(processes: &[RunningProcess], pid: u32) -> (index: Option<usize>)
    ensures
        index is Some == process_with_pid(processes@, pid) is Some,
        index matches Some(i) ==> i < processes@.len() && process_with_pid(processes@, pid) == Some(
            processes@[i as int],
        ),
{
    let mut n: usize = processes.len();
    proof {
        assert(processes@.take(n as int) =~= processes@);
    }
    while n > 0
        invariant
            n <= processes.len(),
            process_with_pid(processes@, pid) == process_with_pid(processes@.take(n as int), pid),
        decreases n,
    {
        proof {
            assert(processes@.take(n as int).drop_last() =~= processes@.take(n - 1));
            assert(processes@.take(n as int).last() == processes@[n - 1]);
        }
        n -= 1;
        if processes[n].pid == pid {
            return Some(n);
        }
    }
    None
}

/// How far up the parents the search for a bundle goes.
pub const MAX_HOPS: u32 = 6;

/// The bundle of the process or of its nearest ancestor that lives in one, at
/// most `hops` parents up. Processes of the system itself have no owner.
pub open spec fn owning_app(
    processes: Seq<RunningProcess>,
    process: RunningProcess,
    hops: nat,
) -> Option<Seq<char>>
    decreases hops,
{
    match process.app {
        Some(app) => if system_mic_holder(text::ascii_lowercase(app@)) {
            None
        } else {
            Some(app@)
        },
        None => if hops == 0 || process.ppid <= 1 {
            None
        } else {
            match process_with_pid(processes, process.ppid) {
                Some(parent) => owning_app(processes, parent, (hops - 1) as nat),
                None => None,
            }
        },
    }
}

fn find_owning_app(processes: &[RunningProcess], start: usize) -> (app: Option<String>)
    requires
        start < processes@.len(),
    ensures
        app is Some == owning_app(processes@, processes@[start as int], MAX_HOPS as nat) is Some,
        app matches Some(a) ==> owning_app(processes@, processes@[start as int], MAX_HOPS as nat)
            == Some(a@),
{
    let mut at: usize = start;
    let mut hops: u32 = MAX_HOPS;
    loop
        invariant
            start < processes@.len(),
            at < processes@.len(),
            owning_app(processes@, processes@[at as int], hops as nat) == owning_app(
                processes@,
                processes@[start as int],
                MAX_HOPS as nat,
            ),
        decreases hops,
    {
        let current = &processes[at];
        match &current.app {
            Some(app) => {
                if is_system_mic_holder(ascii_lowercase_text(app.as_str()).as_str()) {
                    return None;
                }
                return Some(app.clone());
            },
            None => {
                if hops == 0 || current.ppid <= 1 {
                    return None;
                }
                match find_pid(processes, current.ppid) {
                    Some(parent) => {
                        at = parent;
                        hops -= 1;
                    },
                    None => {
                        return None;
                    },
                }
            },
        }
    }
}

/// Whether a process of exactly this name is running.
pub open spec fn running(processes: Seq<RunningProcess>, name: Seq<char>) -> bool {
    exists|i: int| 0 <= i < processes.len() && (#[trigger] processes[i]).name@ == name
}

fn is_running(processes: &[RunningProcess], name: &str) -> (yes: bool)
    ensures
        yes == running(processes@, name@),
{
    let mut i: usize = 0;
    while i < processes.len()
        invariant
            i <= processes.len(),
            forall|j: int| 0 <= j < i ==> (#[trigger] processes@[j]).name@ != name@,
        decreases processes.len() - i,
    {
        if same_text(processes[i].name.as_str(), name) {
            return true;
        }
        i += 1;
    }
    false
}

/// The display name and the name under which a process that captures is shown.
///
/// Safari's audio lives in a WebKit service whose parent is launchd, and
/// FaceTime captures through avconferenced: neither carries its bundle, so
/// each is named where its application is running.
pub open spec fn mic_label(processes: Seq<RunningProcess>, process: RunningProcess) -> Option<
    (Seq<char>, Seq<char>),
> {
    let lower = text::ascii_lowercase(process.name@);
    if system_mic_holder(lower) {
        None
    } else if "com.apple.webkit"@.is_prefix_of(lower) {
        if running(processes, "Safari"@) {
            Some(("Safari"@, "Safari"@))
        } else {
            None
        }
    } else if lower == "avconferenced"@ {
        if running(processes, "FaceTime"@) {
            Some(("FaceTime"@, "FaceTime"@))
        } else {
            None
        }
    } else {
        match owning_app(processes, process, MAX_HOPS as nat) {
            Some(app) => Some((native_apps::display_name(app), app)),
            None => None,
        }
    }
}

pub open spec fn label_model(label: Option<(String, String)>) -> Option<(Seq<char>, Seq<char>)> {
    match label {
        Some((display, process)) => Some((display@, process@)),
        None => None,
    }
}

fn label_of(processes: &[RunningProcess], index: usize) -> (label: Option<(String, String)>)
    requires
        index < processes@.len(),
    ensures
        label_model(label) == mic_label(processes@, processes@[index as int]),
{
    let lower = ascii_lowercase_text(processes[index].name.as_str());
    if is_system_mic_holder(lower.as_str()) {
        return None;
    }
    if text::starts_with(text::chars_of(lower.as_str()).as_slice(), "com.apple.webkit") {
        if is_running(processes, "Safari") {
            return Some(("Safari".to_owned(), "Safari".to_owned()));
        }
        return None;
    }
    if same_text(lower.as_str(), "avconferenced") {
        if is_running(processes, "FaceTime") {
            return Some(("FaceTime".to_owned(), "FaceTime".to_owned()));
        }
        return None;
    }
    match find_owning_app(processes, index) {
        Some(app) => Some((display_name_for(app.as_str()), app)),
        None => None,
    }
}

/// The label of the process with this pid, if it captures for an application
/// other than this one.
pub open spec fn label_of_pid(
    processes: Seq<RunningProcess>,
    active: Set<u32>,
    self_pid: u32,
    pid: u32,
) -> Option<(Seq<char>, Seq<char>)> {
    if active.contains(pid) && !families::family(set![self_pid], processes).contains(pid) {
        match process_with_pid(processes, pid) {
            Some(process) => mic_label(processes, process),
            None => None,
        }
    } else {
        None
    }
}

/// Of the pids that have a label, `pid` is the smallest.
pub open spec fn first_labelled(
    processes: Seq<RunningProcess>,
    active: Set<u32>,
    self_pid: u32,
    pid: u32,
) -> bool {
    &&& label_of_pid(processes, active, self_pid, pid) is Some
    &&& forall|smaller: u32|
        smaller < pid ==> #[trigger] label_of_pid(processes, active, self_pid, smaller) is None
}

/// The label of the smallest pid that has one.
pub open spec fn any_mic_app(
    processes: Seq<RunningProcess>,
    active: Set<u32>,
    self_pid: u32,
) -> Option<(Seq<char>, Seq<char>)> {
    if exists|pid: u32| first_labelled(processes, active, self_pid, pid) {
        label_of_pid(
            processes,
            active,
            self_pid,
            choose|pid: u32| first_labelled(processes, active, self_pid, pid),
        )
    } else {
        None
    }
}

proof fn lemma_listed(processes: Seq<RunningProcess>, pid: u32)
    requires
        process_with_pid(processes, pid) is Some,
    ensures
        exists|i: int| 0 <= i < processes.len() && #[trigger] processes[i].pid == pid,
    decreases processes.len(),
{
    if processes.last().pid == pid {
        assert(processes[processes.len() - 1].pid == pid);
    } else {
        lemma_listed(processes.drop_last(), pid);
        let i = choose|i: int|
            0 <= i < processes.drop_last().len() && #[trigger] processes.drop_last()[i].pid == pid;
        assert(processes[i].pid == pid);
    }
}

/// Any process outside the system and outside this application that holds the
/// microphone, labelled by the application it belongs to.
pub fn detect_any_mic_app(
    processes: &[RunningProcess],
    active_input_pids: &HashSet<u32>,
    self_pid: u32,
) -> (label: Option<(String, String)>)
    ensures
        label_model(label) == any_mic_app(processes@, active_input_pids@, self_pid),
{
    let mut own: HashSet<u32> = HashSet::new();
    own.insert(self_pid);
    proof {
        assert(own@ =~= set![self_pid]);
    }
    expand_process_family(&mut own, processes);
    let mut best: Option<(u32, (String, String))> = None;
    let mut i: usize = 0;
    let ghost ps = processes@;
    let ghost active = active_input_pids@;
    while i < processes.len()
        invariant
            i <= processes.len(),
            ps == processes@,
            active == active_input_pids@,
            own@ == families::family(set![self_pid], processes@),
            best matches Some((pid, label)) ==> label_of_pid(ps, active, self_pid, pid)
                == label_model(Some(label)),
            forall|j: int|
                0 <= j < i && label_of_pid(ps, active, self_pid, #[trigger] ps[j].pid) is Some
                    ==> best is Some && (best->0).0 <= ps[j].pid,
        decreases processes.len() - i,
    {
        let pid: u32 = processes[i].pid;
        let better: bool = match &best {
            Some((known, _)) => pid < *known,
            None => true,
        };
        if better && active_input_pids.contains(&pid) && !own.contains(&pid) {
            if let Some(index) = find_pid(processes, pid) {
                if let Some(label) = label_of(processes, index) {
                    best = Some((pid, label));
                }
            }
        }
        i += 1;
    }
    proof {
        assert forall|pid: u32| label_of_pid(ps, active, self_pid, pid) is Some implies best is Some
            && (best->0).0 <= pid by {
            lemma_listed(ps, pid);
            let j = choose|j: int| 0 <= j < ps.len() && #[trigger] ps[j].pid == pid;
            assert(label_of_pid(ps, active, self_pid, ps[j].pid) is Some);
        }
        if best is Some {
            let pid = (best->0).0;
            assert(first_labelled(ps, active, self_pid, pid));
            let chosen = choose|p: u32| first_labelled(ps, active, self_pid, p);
            assert(first_labelled(ps, active, self_pid, chosen));
            assert(chosen == pid);
        }
    }
    match best {
        Some((_, label)) => Some(label),
        None => None,
    }
}

/// Where any pid has a label, some application is named.
pub proof fn lemma_labelled_capture_is_named(
    processes: Seq<RunningProcess>,
    active: Set<u32>,
    self_pid: u32,
    pid: u32,
)
    requires
        label_of_pid(processes, active, self_pid, pid) is Some,
    ensures
        any_mic_app(processes, active, self_pid) is Some,
    decreases pid,
{
    if first_labelled(processes, active, self_pid, pid) {
        let chosen = choose|p: u32| first_labelled(processes, active, self_pid, p);
        assert(first_labelled(processes, active, self_pid, chosen));
    } else {
        let smaller = choose|q: u32|
            q < pid && #[trigger] label_of_pid(processes, active, self_pid, q) is Some;
        lemma_labelled_capture_is_named(processes, active, self_pid, smaller);
    }
}

/// This application never labels itself, however many helpers it has.
pub proof fn lemma_own_capture_is_no_call(
    processes: Seq<RunningProcess>,
    active: Set<u32>,
    self_pid: u32,
)
    requires
        active.subset_of(families::family(set![self_pid], processes)),
    ensures
        any_mic_app(processes, active, self_pid) is None,
{
    assert forall|pid: u32| !first_labelled(processes, active, self_pid, pid) by {
        assert(label_of_pid(processes, active, self_pid, pid) is None);
    }
}

/// Whether this is a line of ancestors: each process after the first is the
/// parent of the one before it, and no bundle is known of any but the last.
pub open spec fn ancestry(processes: Seq<RunningProcess>, line: Seq<RunningProcess>) -> bool {
    &&& line.len() > 0
    &&& forall|i: int|
        0 <= i < line.len() - 1 ==> (#[trigger] line[i]).app is None && line[i].ppid > 1
            && process_with_pid(processes, line[i].ppid) == Some(line[i + 1])
}

/// A process without a bundle belongs to the bundle of its nearest ancestor
/// that has one, if that is not too many steps away.
proof fn lemma_bundle_is_inherited(
    processes: Seq<RunningProcess>,
    line: Seq<RunningProcess>,
    hops: nat,
)
    requires
        ancestry(processes, line),
        line.last().app is Some,
    ensures
        line.len() <= hops + 1 ==> owning_app(processes, line[0], hops) == owning_app(
            processes,
            line.last(),
            0,
        ),
        line.len() > hops + 1 ==> owning_app(processes, line[0], hops) is None,
    decreases line.len(),
{
    if line.len() > 1 {
        assert(line[0].app is None);
        let rest = line.drop_first();
        assert(rest[0] == line[1] && rest.last() == line.last());
        assert forall|i: int| 0 <= i < rest.len() - 1 implies (#[trigger] rest[i]).app is None
            && rest[i].ppid > 1 && process_with_pid(processes, rest[i].ppid) == Some(
            rest[i + 1],
        ) by {
            assert(rest[i] == line[i + 1] && rest[i + 1] == line[i + 2]);
        }
        if hops > 0 {
            lemma_bundle_is_inherited(processes, rest, (hops - 1) as nat);
        }
    }
}

/// A capturing process is named after the bundle it belongs to or that one of
/// its six nearest ancestors does, under the friendly name of that bundle;
/// beyond that it has no name.
pub proof fn lemma_owner_within_six_steps(
    processes: Seq<RunningProcess>,
    line: Seq<RunningProcess>,
    app: String,
)
    requires
        ancestry(processes, line),
        line.last().app == Some(app),
        !system_mic_holder(text::ascii_lowercase(app@)),
        !system_mic_holder(text::ascii_lowercase(line[0].name@)),
        !"com.apple.webkit"@.is_prefix_of(text::ascii_lowercase(line[0].name@)),
        text::ascii_lowercase(line[0].name@) != "avconferenced"@,
    ensures
        line.len() <= 7 ==> mic_label(processes, line[0]) == Some(
            (native_apps::display_name(app@), app@),
        ),
        line.len() > 7 ==> mic_label(processes, line[0]) is None,
{
    lemma_bundle_is_inherited(processes, line, 6);
}

/// A process without a bundle whose ancestors are not listed, or end at the
/// first process of the system, has no name.
pub proof fn lemma_no_owner(processes: Seq<RunningProcess>, process: RunningProcess, hops: nat)
    requires
        process.app is None,
        process.ppid <= 1 || process_with_pid(processes, process.ppid) is None,
    ensures
        owning_app(processes, process, hops) is None,
{
}

/// The daemons of the system, and this application under any of its names,
/// are never named, be it as the process or as its bundle.
pub proof fn lemma_system_holders_are_not_named(
    processes: Seq<RunningProcess>,
    process: RunningProcess,
    hops: nat,
)
    ensures
        ({
            let lower = text::ascii_lowercase(process.name@);
            lower == "coreaudiod"@ || lower == "corespeechd"@ || lower == "assistantd"@ || lower
                == "siriactionsd"@ || lower == "sirincservice"@ || lower
                == "com.apple.speechrecognitioncore.speechrecognitionserver"@ || lower
                == "minutes"@ || lower == "minutes dev"@ || lower == "minutes-app"@ || lower
                == "minutes-cli"@ || lower == "minutes-apple-speech-worker"@
        }) ==> mic_label(processes, process) is None,
        process.app is Some && (text::ascii_lowercase((process.app->0)@) == "minutes"@
            || text::ascii_lowercase((process.app->0)@) == "minutes dev"@) ==> owning_app(
            processes,
            process,
            hops,
        ) is None,
        system_mic_holder(text::ascii_lowercase(process.name@)) ==> text::ascii_lowercase(
            process.name@,
        ).len() >= 7,
{
    reveal_strlit("coreaudiod");
    reveal_strlit("corespeechd");
    reveal_strlit("assistantd");
    reveal_strlit("siriactionsd");
    reveal_strlit("sirincservice");
    reveal_strlit("com.apple.speechrecognitioncore.speechrecognitionserver");
    reveal_strlit("minutes");
    reveal_strlit("minutes dev");
    reveal_strlit("minutes-app");
    reveal_strlit("minutes-cli");
    reveal_strlit("minutes-apple-speech-worker");
}

/// The services that capture for Safari and FaceTime are named after these,
/// where they run.
#[verifier::rlimit(40)]
pub proof fn lemma_services_are_named_after_their_app(
    processes: Seq<RunningProcess>,
    process: RunningProcess,
    more: Seq<char>,
    i: int,
)
    ensures
        text::ascii_lowercase(process.name@) == "com.apple.webkit"@ + more && 0 <= i
            < processes.len() && processes[i].name@ == "Safari"@ ==> mic_label(processes, process)
            == Some(("Safari"@, "Safari"@)),
        text::ascii_lowercase(process.name@) == "avconferenced"@ && 0 <= i < processes.len()
            && processes[i].name@ == "FaceTime"@ ==> mic_label(processes, process) == Some(
            ("FaceTime"@, "FaceTime"@),
        ),
        text::ascii_lowercase(process.name@) == "com.apple.webkit"@ + more && (forall|j: int|
            0 <= j < processes.len() ==> (#[trigger] processes[j]).name@ != "Safari"@)
            ==> mic_label(processes, process) is None,
        text::ascii_lowercase(process.name@) == "avconferenced"@ && (forall|j: int|
            0 <= j < processes.len() ==> (#[trigger] processes[j]).name@ != "FaceTime"@)
            ==> mic_label(processes, process) is None,
{
    let lower = text::ascii_lowercase(process.name@);
    reveal_strlit("coreaudiod");
    reveal_strlit("corespeechd");
    reveal_strlit("assistantd");
    reveal_strlit("siriactionsd");
    reveal_strlit("sirincservice");
    reveal_strlit("com.apple.speechrecognitioncore.speechrecognitionserver");
    reveal_strlit("minutes");
    reveal_strlit("minutes dev");
    reveal_strlit("minutes-app");
    reveal_strlit("minutes-cli");
    reveal_strlit("minutes-apple-speech-worker");
    reveal_strlit("com.apple.webkit");
    reveal_strlit("avconferenced");
    assert("avconferenced"@.len() == 13 && "avconferenced"@[0] == 'a');
    assert("com.apple.webkit"@.len() == 16 && "com.apple.webkit"@[0] == 'c'
        && "com.apple.webkit"@[10] == 'w');
    if lower == "com.apple.webkit"@ + more {
        assert(lower.len() >= 16 && lower[0] == 'c' && lower[10] == 'w');
        assert("com.apple.speechrecognitioncore.speechrecognitionserver"@[10] == 's');
        assert("minutes-apple-speech-worker"@[0] == 'm');
        assert(!system_mic_holder(lower));
        assert(lower.subrange(0, 16) =~= "com.apple.webkit"@);
        assert("com.apple.webkit"@.is_prefix_of(lower));
    }
    if lower == "avconferenced"@ {
        assert("sirincservice"@.len() == 13 && "sirincservice"@[0] == 's');
        assert(!system_mic_holder(lower));
        if "com.apple.webkit"@.is_prefix_of(lower) {
            assert(lower.len() >= 16);
        }
    }
}

/// Of the capturing processes that have a name, the one with the smallest
/// number is reported.
pub proof fn lemma_smallest_pid_is_reported(
    processes: Seq<RunningProcess>,
    active: Set<u32>,
    self_pid: u32,
    pid: u32,
    process: RunningProcess,
)
    requires
        active.contains(pid),
        !families::family(set![self_pid], processes).contains(pid),
        process_with_pid(processes, pid) == Some(process),
        mic_label(processes, process) is Some,
        forall|smaller: u32|
            smaller < pid && active.contains(smaller) ==> #[trigger] label_of_pid(
                processes,
                active,
                self_pid,
                smaller,
            ) is None,
    ensures
        any_mic_app(processes, active, self_pid) == mic_label(processes, process),
{
    assert forall|smaller: u32| smaller < pid implies #[trigger] label_of_pid(
        processes,
        active,
        self_pid,
        smaller,
    ) is None by {}
    assert(first_labelled(processes, active, self_pid, pid));
    let chosen = choose|p: u32| first_labelled(processes, active, self_pid, p);
    assert(first_labelled(processes, active, self_pid, chosen));
    assert(chosen == pid) by {
        if chosen < pid {
            assert(label_of_pid(processes, active, self_pid, chosen) is None);
        } else if pid < chosen {
            assert(label_of_pid(processes, active, self_pid, pid) is None);
        }
    }
}

/// Of two lines of the table for one process the later counts, and a process
/// that is not listed is not found.
pub proof fn lemma_later_line_counts(
    processes: Seq<RunningProcess>,
    process: RunningProcess,
    other: u32,
)
    ensures
        process_with_pid(processes.push(process), process.pid) == Some(process),
        other != process.pid ==> process_with_pid(processes.push(process), other)
            == process_with_pid(processes, other),
        process_with_pid(Seq::empty(), other) is None,
{
    assert(processes.push(process).drop_last() =~= processes);
}

/// Where no capturing process has a name, none is reported.
pub proof fn lemma_nothing_labelled_nothing_reported(
    processes: Seq<RunningProcess>,
    active: Set<u32>,
    self_pid: u32,
)
    requires
        forall|pid: u32|
            active.contains(pid) ==> #[trigger] process_with_pid(processes, pid) is None
                || mic_label(processes, process_with_pid(processes, pid)->0) is None,
    ensures
        any_mic_app(processes, active, self_pid) is None,
{
    assert forall|pid: u32| label_of_pid(processes, active, self_pid, pid) is None by {
        assert(active.contains(pid) ==> process_with_pid(processes, pid) is None || mic_label(
            processes,
            process_with_pid(processes, pid)->0,
        ) is None);
    }
}

/// A capture of this application's own is passed over, and so is one that no
/// process captures any more.
pub proof fn lemma_whose_capture_counts(
    processes: Seq<RunningProcess>,
    active: Set<u32>,
    self_pid: u32,
    pid: u32,
    process: RunningProcess,
)
    requires
        process_with_pid(processes, pid) == Some(process),
    ensures
        !active.contains(pid) ==> label_of_pid(processes, active, self_pid, pid) is None,
        label_of_pid(processes, active, self_pid, self_pid) is None,
        active.contains(pid) && !families::family(set![self_pid], processes).contains(pid)
            ==> label_of_pid(processes, active, self_pid, pid) == mic_label(processes, process),
{
    families::lemma_family_is_closed(set![self_pid], processes);
    assert(set![self_pid].contains(self_pid));
}

} // verus!
