//! Native call applications: their names, the processes that belong to them
//! and whether one of those holds the microphone.

use crate::families;
use crate::families::{expand_process_family, family_captures};
use crate::processes::RunningProcess;
use crate::text;
use crate::text::{ascii_lowercase_text, same_text, starts_with};
use std::collections::HashSet;
use vstd::prelude::*;

verus! {

broadcast use {vstd::std_specs::hash::group_hash_axioms, vstd::set::group_set_axioms};

/// Friendly name for a process name or browser sentinel; other names stand
/// for themselves.
pub open spec fn display_name(process: Seq<char>) -> Seq<char> {
    if process == "zoom.us"@ {
        "Zoom"@
    } else if process == "Microsoft Teams"@ || process == "Microsoft Teams (work or school)"@
        || process == "MSTeams"@ || process == "teams-web"@ {
        "Teams"@
    } else if process == "google-meet"@ {
        "Google Meet"@
    } else {
        process
    }
}

/// Friendly display name for a process name or browser sentinel.
pub fn display_name_for(process: &str) -> (name: String)
    ensures
        name@ == display_name(process@),
{
    if same_text(process, "zoom.us") {
        "Zoom".to_owned()
    } else if same_text(process, "Microsoft Teams") || same_text(
        process,
        "Microsoft Teams (work or school)",
    ) || same_text(process, "MSTeams") || same_text(process, "teams-web") {
        "Teams".to_owned()
    } else if same_text(process, "google-meet") {
        "Google Meet".to_owned()
    } else {
        process.to_owned()
    }
}

/// Slack runs all day and opens the microphone for more than calls.
pub open spec fn low_confidence(app: Seq<char>) -> bool {
    text::ascii_lowercase(app) == "slack"@
}

pub fn is_low_confidence_native_call_app(app: &str) -> (yes: bool)
    ensures
        yes == low_confidence(app@),
{
    same_text(ascii_lowercase_text(app).as_str(), "slack")
}

/// Executable names other than its own that a configured app may show up as.
/// The new Microsoft Teams runs as `MSTeams` while its helpers keep the
/// `Microsoft Teams` name, so a config entry of "Microsoft Teams" has to
/// accept both.
pub open spec fn aliases(config_lower: Seq<char>) -> Seq<Seq<char>> {
    if config_lower == "microsoft teams"@ || config_lower == "microsoft teams (work or school)"@ {
        seq!["msteams"@]
    } else {
        Seq::empty()
    }
}

pub fn config_app_aliases(config_lower: &str) -> (names: Vec<&'static str>)
    ensures
        text::words(names@) == aliases(config_lower@),
{
    let mut names: Vec<&'static str> = Vec::new();
    if same_text(config_lower, "microsoft teams") || same_text(
        config_lower,
        "microsoft teams (work or school)",
    ) {
        names.push("msteams");
    }
    proof {
        assert(text::words(names@) =~= aliases(config_lower@));
    }
    names
}

/// The names are the same, or the process name goes on behind the configured
/// one with a dot or a space. A mere substring of a longer daemon name does
/// not match.
pub open spec fn lowered_names_match(config_lower: Seq<char>, process_lower: Seq<char>) -> bool {
    ||| process_lower == config_lower
    ||| config_lower.push('.').is_prefix_of(process_lower)
    ||| config_lower.push(' ').is_prefix_of(process_lower)
    ||| aliases(config_lower).contains(process_lower)
}

pub fn lowered_process_name_matches(config_lower: &str, process_lower: &str) -> (yes: bool)
    ensures
        yes == lowered_names_match(config_lower@, process_lower@),
{
    let mut dotted = config_lower.to_owned();
    dotted.push('.');
    let mut spaced = config_lower.to_owned();
    spaced.push(' ');
    let process = text::chars_of(process_lower);
    same_text(process_lower, config_lower) || starts_with(process.as_slice(), dotted.as_str())
        || starts_with(process.as_slice(), spaced.as_str()) || text::is_one_of(
        process_lower,
        config_app_aliases(config_lower).as_slice(),
    )
}

/// Whether a process of this name belongs to the configured application,
/// whatever the case of the letters.
pub open spec fn names_match(config_app: Seq<char>, process_name: Seq<char>) -> bool {
    lowered_names_match(text::unicode_lowercase(config_app), text::unicode_lowercase(process_name))
}

pub fn process_name_matches_config_app(config_app: &str, process_name: &str) -> (yes: bool)
    ensures
        yes == names_match(config_app@, process_name@),
{
    lowered_process_name_matches(
        config_app.to_lowercase().as_str(),
        process_name.to_lowercase().as_str(),
    )
}

/// The pids of the processes that go by the application's name.
pub open spec fn app_roots(config_app: Seq<char>, processes: Seq<RunningProcess>) -> Set<u32> {
    Set::new(
        |pid: u32|
            exists|i: int|
                0 <= i < processes.len() && #[trigger] processes[i].pid == pid && names_match(
                    config_app,
                    processes[i].name@,
                ),
    )
}

/// The application's processes: those that go by its name, and their descendants.
pub open spec fn app_family(config_app: Seq<char>, processes: Seq<RunningProcess>) -> Set<u32> {
    families::family(app_roots(config_app, processes), processes)
}

pub fn native_app_candidate_process_pids(
    config_app: &str,
    processes: &[RunningProcess],
) -> (candidates: HashSet<u32>)
    ensures
        candidates@ == app_family(config_app@, processes@),
{
    let mut candidates: HashSet<u32> = HashSet::new();
    let mut i: usize = 0;
    while i < processes.len()
        invariant
            i <= processes.len(),
            forall|pid: u32| #[trigger]
                candidates@.contains(pid) == exists|j: int|
                    0 <= j < i && #[trigger] processes@[j].pid == pid && names_match(
                        config_app@,
                        processes@[j].name@,
                    ),
        decreases processes.len() - i,
    {
        if process_name_matches_config_app(config_app, processes[i].name.as_str()) {
            candidates.insert(processes[i].pid);
        }
        i += 1;
    }
    proof {
        assert(candidates@ =~= app_roots(config_app@, processes@));
    }
    expand_process_family(&mut candidates, processes);
    candidates
}

/// Some process of the application's family is capturing.
pub open spec fn app_captures(
    config_app: Seq<char>,
    processes: Seq<RunningProcess>,
    active: Set<u32>,
) -> bool {
    families::captures(app_family(config_app, processes), active)
}

pub fn native_app_has_active_input(
    config_app: &str,
    processes: &[RunningProcess],
    active_input_pids: &HashSet<u32>,
) -> (yes: bool)
    ensures
        yes == app_captures(config_app@, processes@, active_input_pids@),
{
    let candidates = native_app_candidate_process_pids(config_app, processes);
    proof {
        families::lemma_family_is_running(app_roots(config_app@, processes@), processes@);
    }
    family_captures(&candidates, processes, active_input_pids)
}

/// An idle call application is not on a call because something else holds the
/// microphone: input from outside its family does not count.
pub proof fn lemma_dictation_does_not_validate_an_idle_app(
    config_app: Seq<char>,
    processes: Seq<RunningProcess>,
    active: Set<u32>,
)
    requires
        app_family(config_app, processes).disjoint(active),
    ensures
        !app_captures(config_app, processes, active),
{
}

/// A process that goes by exactly the configured name belongs to the
/// application, and so do its children.
pub proof fn lemma_app_family_holds_children(
    config_app: Seq<char>,
    processes: Seq<RunningProcess>,
    root: int,
    child: int,
)
    requires
        0 <= root < processes.len(),
        0 <= child < processes.len(),
        processes[root].name@ == config_app,
        processes[child].ppid == processes[root].pid,
    ensures
        app_family(config_app, processes).contains(processes[root].pid),
        app_family(config_app, processes).contains(processes[child].pid),
{
    families::lemma_family_is_closed(app_roots(config_app, processes), processes);
    assert(app_roots(config_app, processes).contains(processes[root].pid));
}

/// The friendly names: each process name of Zoom, Teams and Google Meet, and
/// any other under its own.
pub proof fn lemma_friendly_names(other: Seq<char>)
    requires
        other != "zoom.us"@,
        other != "Microsoft Teams"@,
        other != "Microsoft Teams (work or school)"@,
        other != "MSTeams"@,
        other != "teams-web"@,
        other != "google-meet"@,
    ensures
        display_name("zoom.us"@) == "Zoom"@,
        display_name("Microsoft Teams"@) == "Teams"@,
        display_name("Microsoft Teams (work or school)"@) == "Teams"@,
        display_name("MSTeams"@) == "Teams"@,
        display_name("teams-web"@) == "Teams"@,
        display_name("google-meet"@) == "Google Meet"@,
        display_name(other) == other,
{
    reveal_strlit("zoom.us");
    reveal_strlit("Microsoft Teams");
    reveal_strlit("Microsoft Teams (work or school)");
    reveal_strlit("MSTeams");
    reveal_strlit("teams-web");
    reveal_strlit("google-meet");
    assert("zoom.us"@[0] == 'z' && "MSTeams"@[0] == 'M' && "teams-web"@[0] == 't'
        && "google-meet"@[0] == 'g' && "Microsoft Teams"@[0] == 'M');
    assert("zoom.us"@ != "MSTeams"@);
}

/// Slack holds the microphone without a call and is trusted last, however its
/// name is capitalised; nothing else is.
pub proof fn lemma_only_slack_is_of_low_confidence(app: Seq<char>)
    ensures
        low_confidence(app) <==> text::ascii_lowercase(app) == "slack"@,
        app.len() != 5 ==> !low_confidence(app),
{
    reveal_strlit("slack");
    assert(text::ascii_lowercase(app).len() == app.len());
}

/// A process belongs to an application of the same name, however either is
/// capitalised, and to one whose name it carries on behind a dot or a space.
pub proof fn lemma_names_that_match(config_app: Seq<char>, process_name: Seq<char>, more: Seq<char>)
    requires
        ({
            let app = text::unicode_lowercase(config_app);
            let process = text::unicode_lowercase(process_name);
            process == app || process == app + "."@ + more || process == app + " "@ + more
        }),
    ensures
        names_match(config_app, process_name),
{
    let app = text::unicode_lowercase(config_app);
    let process = text::unicode_lowercase(process_name);
    reveal_strlit(".");
    reveal_strlit(" ");
    if process == app + "."@ + more {
        assert(process.subrange(0, app.len() as int + 1) =~= app.push('.'));
    }
    if process == app + " "@ + more {
        assert(process.subrange(0, app.len() as int + 1) =~= app.push(' '));
    }
}

/// A name that only begins alike does not match, nor does one that holds the
/// name further on.
pub proof fn lemma_names_that_do_not_match(
    config_app: Seq<char>,
    process_name: Seq<char>,
    c: char,
    more: Seq<char>,
)
    requires
        c != '.' && c != ' ',
        ({
            let app = text::unicode_lowercase(config_app);
            let process = text::unicode_lowercase(process_name);
            &&& app != "microsoft teams"@ && app != "microsoft teams (work or school)"@
            &&& app.len() > 0
            &&& process == app.push(c) + more || (process.len() > 0 && process[0] != app[0])
        }),
    ensures
        !names_match(config_app, process_name),
{
    let app = text::unicode_lowercase(config_app);
    let process = text::unicode_lowercase(process_name);
    assert(!aliases(app).contains(process));
    if app.push('.').is_prefix_of(process) {
        assert(process.subrange(0, app.len() as int + 1)[app.len() as int] == '.');
        assert(process.subrange(0, app.len() as int + 1)[0] == app[0]);
    }
    if app.push(' ').is_prefix_of(process) {
        assert(process.subrange(0, app.len() as int + 1)[app.len() as int] == ' ');
        assert(process.subrange(0, app.len() as int + 1)[0] == app[0]);
    }
}

/// The new Teams client is Teams, under both names that Teams is listed by.
pub proof fn lemma_new_teams_client_is_teams(config_app: Seq<char>, process_name: Seq<char>)
    requires
        text::unicode_lowercase(config_app) == "microsoft teams"@ || text::unicode_lowercase(
            config_app,
        ) == "microsoft teams (work or school)"@,
        text::unicode_lowercase(process_name) == "msteams"@,
    ensures
        names_match(config_app, process_name),
{
    assert(seq!["msteams"@][0] == "msteams"@);
}

/// An application captures where one of its processes does, or a child or a
/// grandchild of one.
pub proof fn lemma_descendant_captures(
    config_app: Seq<char>,
    processes: Seq<RunningProcess>,
    active: Set<u32>,
    root: int,
    child: int,
    grandchild: int,
)
    requires
        0 <= root < processes.len(),
        0 <= child < processes.len(),
        0 <= grandchild < processes.len(),
        names_match(config_app, processes[root].name@),
        processes[child].ppid == processes[root].pid,
        processes[grandchild].ppid == processes[child].pid,
        active.contains(processes[root].pid) || active.contains(processes[child].pid)
            || active.contains(processes[grandchild].pid),
    ensures
        app_captures(config_app, processes, active),
{
    let roots = app_roots(config_app, processes);
    assert(roots.contains(processes[root].pid));
    families::lemma_family_is_closed(roots, processes);
    let family = app_family(config_app, processes);
    assert(family.contains(processes[root].pid));
    assert(family.contains(processes[child].pid));
    assert(family.contains(processes[grandchild].pid));
}

/// An application that does not run captures nothing, whoever else does.
pub proof fn lemma_absent_app_captures_nothing(
    config_app: Seq<char>,
    processes: Seq<RunningProcess>,
    active: Set<u32>,
)
    requires
        forall|i: int|
            0 <= i < processes.len() ==> !names_match(config_app, (#[trigger] processes[i]).name@),
    ensures
        !app_captures(config_app, processes, active),
{
    let roots = app_roots(config_app, processes);
    assert(roots =~= Set::<u32>::empty());
    families::lemma_family_is_least(roots, processes, Set::empty());
}

} // verus!
