//! The browsers whose tabs are searched for meetings: the table, which of
//! them run, whose input counts, and what is asked of each and answered.

use crate::families;
use crate::families::{expand_process_family, family_captures};
use crate::processes::RunningProcess;
use crate::text;
use crate::text::{chars_of, contains_text, joined, same_text};
use std::collections::HashSet;
use vstd::prelude::*;

verus! {

broadcast use {vstd::std_specs::hash::group_hash_axioms, vstd::set::group_set_axioms};

#[derive(Debug, Clone, Copy, PartialEq, Eq, Structural)]
pub enum BrowserKind {
    ChromeLike,
    Safari,
}

/// How active-input attribution applies to one browser of the probe table.
#[derive(Debug, Clone, Copy)]
pub enum BrowserAttribution {
    /// Input is attributed to the process family rooted at the processes whose
    /// binary name is exactly `root` (the main browser process), expanded
    /// through pid/ppid. In the Chromium family the capturing pid is the
    /// sandboxed Audio Service utility process, a direct child of the main
    /// process. Only roots dogfooded on a real call are listed this way.
    ProcessFamily { root: &'static str },
    /// The hit is trusted whenever any process holds the mic. Used for Safari,
    /// whose WebContent and GPU processes are reparented to launchd so
    /// pid/ppid cannot attribute them without private SPI, and for Chromium
    /// roots that have not been dogfooded yet.
    GenericGate,
}

/// One row of the browser probe table.
#[derive(Debug, Clone, Copy)]
pub struct BrowserSpec {
    /// Lowercased fragment matched against running process names.
    pub fragment: &'static str,
    /// AppleScript application name, also the key of the probe backoff map.
    pub app_name: &'static str,
    pub kind: BrowserKind,
    /// Require a full process-name match instead of a substring hit. The probe
    /// launches the app when it is not already running, so a substring hit on
    /// an unrelated background process would open a browser the user never
    /// started.
    pub exact: bool,
    pub attribution: BrowserAttribution,
}

/// A Chromium browser on the generic gate.
pub open spec fn ungated(fragment: &'static str, app_name: &'static str, exact: bool) -> BrowserSpec {
    BrowserSpec {
        fragment,
        app_name,
        kind: BrowserKind::ChromeLike,
        exact,
        attribution: BrowserAttribution::GenericGate,
    }
}

/// The browsers, in the order in which they are searched. Arc, Vivaldi and
/// Safari need the exact name: a substring would catch searchpartyd or
/// Safari's agents, which always run. Canary, Chromium and Arc stay on the
/// generic gate until each root has been dogfooded on a real call.
pub open spec fn browser_table() -> Seq<BrowserSpec> {
    seq![
        BrowserSpec {
            fragment: "google chrome",
            app_name: "Google Chrome",
            kind: BrowserKind::ChromeLike,
            exact: false,
            attribution: BrowserAttribution::ProcessFamily { root: "Google Chrome" },
        },
        ungated("chrome canary", "Google Chrome Canary", false),
        ungated("chromium", "Chromium", false),
        ungated("arc", "Arc", true),
        ungated("brave browser", "Brave Browser", false),
        ungated("microsoft edge", "Microsoft Edge", false),
        ungated("vivaldi", "Vivaldi", true),
        BrowserSpec {
            fragment: "safari",
            app_name: "Safari",
            kind: BrowserKind::Safari,
            exact: true,
            attribution: BrowserAttribution::GenericGate,
        },
    ]
}

fn generic(fragment: &'static str, app_name: &'static str, exact: bool) -> (spec: BrowserSpec)
    ensures
        spec == ungated(fragment, app_name, exact),
{
    BrowserSpec {
        fragment,
        app_name,
        kind: BrowserKind::ChromeLike,
        exact,
        attribution: BrowserAttribution::GenericGate,
    }
}

pub fn browsers() -> (table: Vec<BrowserSpec>)
    ensures
        table@ == browser_table(),
{
    let table: Vec<BrowserSpec> = vec![
        BrowserSpec {
            fragment: "google chrome",
            app_name: "Google Chrome",
            kind: BrowserKind::ChromeLike,
            exact: false,
            attribution: BrowserAttribution::ProcessFamily { root: "Google Chrome" },
        },
        generic("chrome canary", "Google Chrome Canary", false),
        generic("chromium", "Chromium", false),
        generic("arc", "Arc", true),
        generic("brave browser", "Brave Browser", false),
        generic("microsoft edge", "Microsoft Edge", false),
        generic("vivaldi", "Vivaldi", true),
        BrowserSpec {
            fragment: "safari",
            app_name: "Safari",
            kind: BrowserKind::Safari,
            exact: true,
            attribution: BrowserAttribution::GenericGate,
        },
    ];
    proof {
        assert(table@ =~= browser_table());
    }
    table
}

/// Whether one of the lower-cased process names shows the browser running.
pub open spec fn browser_seen(spec: BrowserSpec, running_lower: Seq<Seq<char>>) -> bool {
    exists|i: int|
        0 <= i < running_lower.len() && browser_named(spec, #[trigger] running_lower[i])
}

pub open spec fn browser_named(spec: BrowserSpec, lower: Seq<char>) -> bool {
    if spec.exact {
        lower == spec.fragment@
    } else {
        text::occurs_in(spec.fragment@, lower)
    }
}

/// The rows whose browser is running, in the order of the table.
pub open spec fn browsers_seen(
    table: Seq<BrowserSpec>,
    running_lower: Seq<Seq<char>>,
) -> Seq<BrowserSpec>
    decreases table.len(),
{
    if table.len() == 0 {
        Seq::empty()
    } else {
        let earlier = browsers_seen(table.drop_last(), running_lower);
        if browser_seen(table.last(), running_lower) {
            earlier.push(table.last())
        } else {
            earlier
        }
    }
}

fn is_browser_seen(spec: &BrowserSpec, running_lower: &[String]) -> (yes: bool)
    ensures
        yes == browser_seen(*spec, text::texts(running_lower@)),
{
    let mut i: usize = 0;
    while i < running_lower.len()
        invariant
            i <= running_lower.len(),
            forall|j: int|
                0 <= j < i ==> !browser_named(*spec, #[trigger] text::texts(running_lower@)[j]),
        decreases running_lower.len() - i,
    {
        let name = running_lower[i].as_str();
        proof {
            assert(text::texts(running_lower@)[i as int] == name@);
        }
        let named = if spec.exact {
            same_text(name, spec.fragment)
        } else {
            contains_text(chars_of(name).as_slice(), spec.fragment)
        };
        if named {
            return true;
        }
        i += 1;
    }
    false
}

/// Select the browsers whose tabs the AppleScript meeting probe may inspect,
/// given a lowercased snapshot of running process names.
pub fn browsers_to_probe(running_lower: &[String]) -> (matched: Vec<BrowserSpec>)
    ensures
        matched@ == browsers_seen(browser_table(), text::texts(running_lower@)),
{
    let table = browsers();
    let mut matched: Vec<BrowserSpec> = Vec::new();
    let mut i: usize = 0;
    proof {
        assert(matched@ =~= browsers_seen(table@.take(0), text::texts(running_lower@)));
    }
    while i < table.len()
        invariant
            i <= table.len(),
            matched@ == browsers_seen(table@.take(i as int), text::texts(running_lower@)),
        decreases table.len() - i,
    {
        proof {
            assert(table@.take(i + 1).drop_last() =~= table@.take(i as int));
        }
        if is_browser_seen(&table[i], running_lower) {
            matched.push(table[i]);
        }
        i += 1;
    }
    proof {
        assert(table@.take(i as int) =~= table@);
    }
    matched
}

/// The browsers to probe are the rows that are running, all of them and no
/// others.
pub proof fn lemma_probed_iff_running(
    table: Seq<BrowserSpec>,
    running_lower: Seq<Seq<char>>,
    spec: BrowserSpec,
)
    ensures
        browsers_seen(table, running_lower).contains(spec) <==> table.contains(spec)
            && browser_seen(spec, running_lower),
    decreases table.len(),
{
    if table.len() > 0 {
        let last = table.last();
        let earlier = browsers_seen(table.drop_last(), running_lower);
        lemma_probed_iff_running(table.drop_last(), running_lower, spec);
        assert(table =~= table.drop_last().push(last));
        assert(table.contains(spec) <==> table.drop_last().contains(spec) || spec == last) by {
            if table.drop_last().contains(spec) {
                let i = choose|i: int|
                    0 <= i < table.drop_last().len() && table.drop_last()[i] == spec;
                assert(table[i] == spec);
            }
            if spec == last {
                assert(table[table.len() - 1] == spec);
            }
        }
        assert(earlier.push(last).contains(spec) <==> earlier.contains(spec) || spec == last) by {
            if earlier.contains(spec) {
                let i = choose|i: int| 0 <= i < earlier.len() && earlier[i] == spec;
                assert(earlier.push(last)[i] == spec);
            }
            if spec == last {
                assert(earlier.push(last)[earlier.len() as int] == spec);
            }
        }
    }
}

/// The pids of the processes whose binary name is `root`, whatever the case.
pub open spec fn browser_roots(root: Seq<char>, processes: Seq<RunningProcess>) -> Set<u32> {
    Set::new(
        |pid: u32|
            exists|i: int|
                0 <= i < processes.len() && #[trigger] processes[i].pid == pid
                    && text::ascii_lowercase(processes[i].name@) == text::ascii_lowercase(root),
    )
}

/// The family of the browser whose main process is named `root`.
pub open spec fn browser_family(root: Seq<char>, processes: Seq<RunningProcess>) -> Set<u32> {
    families::family(browser_roots(root, processes), processes)
}

/// PIDs of the browser process family rooted at the processes whose binary
/// name is exactly `root`, expanded through pid/ppid. Exact on purpose: the
/// prefix matcher used for native apps would let "Google Chrome" absorb
/// "Google Chrome Canary" and its whole tree, so Canary holding the mic would
/// validate a stale Chrome sticky.
pub fn browser_family_pids(root: &str, processes: &[RunningProcess]) -> (family: HashSet<u32>)
    ensures
        family@ == browser_family(root@, processes@),
{
    let mut family: HashSet<u32> = HashSet::new();
    let root_chars = chars_of(root);
    let mut i: usize = 0;
    while i < processes.len()
        invariant
            i <= processes.len(),
            root_chars@ == root@,
            forall|pid: u32| #[trigger]
                family@.contains(pid) == exists|j: int|
                    0 <= j < i && #[trigger] processes@[j].pid == pid && text::ascii_lowercase(
                        processes@[j].name@,
                    ) == text::ascii_lowercase(root@),
        decreases processes.len() - i,
    {
        let name = chars_of(processes[i].name.as_str());
        if text::same_ignoring_ascii_case(name.as_slice(), root_chars.as_slice()) {
            family.insert(processes[i].pid);
        }
        i += 1;
    }
    proof {
        assert(family@ =~= browser_roots(root@, processes@));
    }
    expand_process_family(&mut family, processes);
    family
}

/// The process table, where there is one.
pub open spec fn table_model(processes: Option<&[RunningProcess]>) -> Option<Seq<RunningProcess>> {
    match processes {
        Some(p) => Some(p@),
        None => None,
    }
}

/// The capturing pids, where they are known.
pub open spec fn pids_model(pids: Option<&HashSet<u32>>) -> Option<Set<u32>> {
    match pids {
        Some(p) => Some(p@),
        None => None,
    }
}

/// Whether input backs a meeting tab of this browser. Where input can be
/// attributed, and the browser's main process is known, some process of its
/// family must be capturing; otherwise any live microphone will do.
pub open spec fn browser_captures(
    browser: BrowserSpec,
    mic_live: bool,
    processes: Option<Seq<RunningProcess>>,
    active: Option<Set<u32>>,
) -> bool {
    match (browser.attribution, processes, active) {
        (BrowserAttribution::ProcessFamily { root }, Some(processes), Some(active)) => {
            families::captures(browser_family(root@, processes), active)
        },
        _ => mic_live,
    }
}

/// Whether a browser-tab meeting hit (fresh probe result or open sticky
/// window) is backed by input from the browser that produced it.
pub fn browser_hit_has_active_input(
    browser: &BrowserSpec,
    mic_live: bool,
    processes: Option<&[RunningProcess]>,
    active_input_pids: Option<&HashSet<u32>>,
) -> (yes: bool)
    ensures
        yes == browser_captures(
            *browser,
            mic_live,
            table_model(processes),
            pids_model(active_input_pids),
        ),
{
    match (browser.attribution, processes, active_input_pids) {
        (BrowserAttribution::ProcessFamily { root }, Some(processes), Some(active_input_pids)) => {
            let family = browser_family_pids(root, processes);
            proof {
                families::lemma_family_is_running(browser_roots(root@, processes@), processes@);
            }
            family_captures(&family, processes, active_input_pids)
        },
        _ => mic_live,
    }
}

/// One tab: its address and its title.
#[derive(Debug, Clone)]
pub struct BrowserTab {
    pub url: String,
    pub title: String,
}

/// A tab's address and title as sequences of characters.
pub struct TabModel {
    pub url: Seq<char>,
    pub title: Seq<char>,
}

impl View for BrowserTab {
    type V = TabModel;

    open spec fn view(&self) -> TabModel {
        TabModel { url: self.url@, title: self.title@ }
    }
}

pub open spec fn tab_models(tabs: Seq<BrowserTab>) -> Seq<TabModel> {
    tabs.map_values(|tab: BrowserTab| tab@)
}

/// What asking a browser for its tabs came to.
#[derive(Debug, Clone)]
pub enum AppleScriptProbe {
    Tabs(Vec<BrowserTab>),
    PermissionDenied,
    Error { stderr: String },
}

pub open spec fn title_property(kind: BrowserKind) -> Seq<char> {
    match kind {
        BrowserKind::ChromeLike => "title"@,
        BrowserKind::Safari => "name"@,
    }
}

/// The AppleScript that prints the address and the title of every tab, one
/// to a line. Chromium tabs expose `title`; Safari tabs expose `name`.
pub open spec fn script_for(app_name: Seq<char>, kind: BrowserKind) -> Seq<char> {
    "tell application \""@ + app_name
        + "\"\nset output to \"\"\nrepeat with w in windows\n  repeat with t in tabs of w\n    set tabUrl to \"\"\n    set tabTitle to \"\"\n    try\n      set tabUrl to (URL of t as text)\n    end try\n    try\n      set tabTitle to ("@
        + title_property(kind)
        + " of t as text)\n    end try\n    set output to output & tabUrl & linefeed & tabTitle & linefeed\n  end repeat\nend repeat\nreturn output\nend tell"@
}

pub fn browser_tabs_script(app_name: &str, kind: BrowserKind) -> (script: String)
    ensures
        script@ == script_for(app_name@, kind),
{
    let property = match kind {
        BrowserKind::ChromeLike => "title",
        BrowserKind::Safari => "name",
    };
    let head = joined("tell application \"", app_name);
    let body = head.concat(
        "\"\nset output to \"\"\nrepeat with w in windows\n  repeat with t in tabs of w\n    set tabUrl to \"\"\n    set tabTitle to \"\"\n    try\n      set tabUrl to (URL of t as text)\n    end try\n    try\n      set tabTitle to (",
    ).concat(property);
    body.concat(
        " of t as text)\n    end try\n    set output to output & tabUrl & linefeed & tabTitle & linefeed\n  end repeat\nend repeat\nreturn output\nend tell",
    )
}

/// The tabs that pairs of lines describe: an address and a title, each
/// trimmed. A last line without its pair has an empty title, and a pair of
/// blank lines is no tab.
pub open spec fn tabs_of_lines(lines: Seq<Seq<char>>) -> Seq<TabModel>
    decreases lines.len(),
{
    if lines.len() == 0 {
        Seq::empty()
    } else {
        let tab = TabModel {
            url: text::trim(lines[0]),
            title: if lines.len() > 1 {
                text::trim(lines[1])
            } else {
                Seq::empty()
            },
        };
        let later = if lines.len() > 1 {
            tabs_of_lines(lines.skip(2))
        } else {
            Seq::empty()
        };
        if tab.url.len() == 0 && tab.title.len() == 0 {
            later
        } else {
            seq![tab] + later
        }
    }
}

pub fn tabs_from_output(stdout: &str) -> (tabs: Vec<BrowserTab>)
    ensures
        tab_models(tabs@) == tabs_of_lines(text::lines(stdout@)),
{
    let chars = chars_of(stdout);
    let lines = text::lines_of(chars.as_slice());
    let ghost all = text::lines(stdout@);
    let mut tabs: Vec<BrowserTab> = Vec::new();
    let mut i: usize = 0;
    proof {
        assert(all.skip(0) =~= all);
        assert(tab_models(tabs@) + tabs_of_lines(all.skip(0)) =~= tabs_of_lines(all));
    }
    while i < lines.len()
        invariant
            i <= lines.len(),
            text::runs(lines@) == all,
            tab_models(tabs@) + tabs_of_lines(all.skip(i as int)) == tabs_of_lines(all),
        decreases lines.len() - i,
    {
        let ghost rest = all.skip(i as int);
        proof {
            assert(rest[0] == lines@[i as int]@);
            assert(i + 1 < lines.len() ==> rest[1] == lines@[i + 1]@);
            assert(i + 1 < lines.len() ==> rest.skip(2) =~= all.skip(i + 2));
        }
        let url = text::string_of(text::trim_chars(lines[i]));
        let paired = i + 1 < lines.len();
        let title = if paired {
            text::string_of(text::trim_chars(lines[i + 1]))
        } else {
            String::new()
        };
        let ghost tab = TabModel { url: url@, title: title@ };
        let ghost known = tab_models(tabs@);
        let next: usize = if paired {
            i + 2
        } else {
            i + 1
        };
        proof {
            assert(title@ =~= (if rest.len() > 1 {
                text::trim(rest[1])
            } else {
                Seq::empty()
            }));
            assert(!paired ==> all.skip(next as int) =~= Seq::empty());
            assert(tabs_of_lines(rest) == (if tab.url.len() == 0 && tab.title.len() == 0 {
                tabs_of_lines(all.skip(next as int))
            } else {
                seq![tab] + tabs_of_lines(all.skip(next as int))
            }));
        }
        if !(url.as_str().is_empty() && title.as_str().is_empty()) {
            let found = BrowserTab { url, title };
            proof {
                assert(tab_models(tabs@.push(found)) =~= known.push(tab));
                assert(known + (seq![tab] + tabs_of_lines(all.skip(next as int))) =~= known.push(
                    tab,
                ) + tabs_of_lines(all.skip(next as int)));
            }
            tabs.push(found);
        }
        i = next;
    }
    proof {
        assert(all.skip(i as int) =~= Seq::empty());
        assert(tab_models(tabs@) =~= tabs_of_lines(all));
    }
    tabs
}

/// Whether a lower-cased error message says that the browser may not be
/// controlled.
pub open spec fn denies_permission(stderr_lower: Seq<char>) -> bool {
    ||| text::occurs_in("not authorized"@, stderr_lower)
    ||| text::occurs_in("not permitted"@, stderr_lower)
    ||| text::occurs_in("(-1743)"@, stderr_lower)
}

pub fn lowered_denies_permission(stderr_lower: &str) -> (yes: bool)
    ensures
        yes == denies_permission(stderr_lower@),
{
    let chars = chars_of(stderr_lower);
    contains_text(chars.as_slice(), "not authorized") || contains_text(
        chars.as_slice(),
        "not permitted",
    ) || contains_text(chars.as_slice(), "(-1743)")
}

/// What a run of `osascript` that ended with this status and this output says.
pub fn applescript_probe(success: bool, stdout: &str, stderr: &str) -> (probe: AppleScriptProbe)
    ensures
        success ==> (probe matches AppleScriptProbe::Tabs(tabs) && tab_models(tabs@)
            == tabs_of_lines(text::lines(stdout@))),
        !success && denies_permission(text::unicode_lowercase(stderr@)) ==> probe
            == AppleScriptProbe::PermissionDenied,
        !success && !denies_permission(text::unicode_lowercase(stderr@)) ==> (
        probe matches AppleScriptProbe::Error { stderr: message } && message@ == text::trim(
            stderr@,
        )),
{
    if success {
        return AppleScriptProbe::Tabs(tabs_from_output(stdout));
    }
    if lowered_denies_permission(stderr.to_lowercase().as_str()) {
        AppleScriptProbe::PermissionDenied
    } else {
        let chars = chars_of(stderr);
        AppleScriptProbe::Error { stderr: text::string_of(text::trim_chars(chars.as_slice())) }
    }
}

/// What it says when `osascript` could not be started at all.
pub fn applescript_spawn_failure(error: &str) -> (probe: AppleScriptProbe)
    ensures
        probe matches AppleScriptProbe::Error { stderr } && stderr@ == "osascript spawn failed: "@
            + error@,
{
    AppleScriptProbe::Error { stderr: joined("osascript spawn failed: ", error) }
}

/// The eight browsers that are known, each under the name that it is asked by
/// and with the way its microphone use is attributed.
pub proof fn lemma_known_browsers(spec: BrowserSpec)
    ensures
        browser_table().len() == 8,
        browser_table().contains(
            BrowserSpec {
                fragment: "google chrome",
                app_name: "Google Chrome",
                kind: BrowserKind::ChromeLike,
                exact: false,
                attribution: BrowserAttribution::ProcessFamily { root: "Google Chrome" },
            },
        ),
        browser_table().contains(
            BrowserSpec {
                fragment: "safari",
                app_name: "Safari",
                kind: BrowserKind::Safari,
                exact: true,
                attribution: BrowserAttribution::GenericGate,
            },
        ),
        spec.kind == BrowserKind::ChromeLike && spec.attribution == BrowserAttribution::GenericGate
            && (spec.fragment == "arc" && spec.app_name == "Arc" && spec.exact || spec.fragment
            == "vivaldi" && spec.app_name == "Vivaldi" && spec.exact || spec.fragment
            == "chrome canary" && spec.app_name == "Google Chrome Canary" && !spec.exact
            || spec.fragment == "chromium" && spec.app_name == "Chromium" && !spec.exact
            || spec.fragment == "brave browser" && spec.app_name == "Brave Browser" && !spec.exact
            || spec.fragment == "microsoft edge" && spec.app_name == "Microsoft Edge"
            && !spec.exact) ==> browser_table().contains(spec),
{
    let table = browser_table();
    assert(table[0].fragment == "google chrome");
    assert(table[1].fragment == "chrome canary");
    assert(table[2].fragment == "chromium");
    assert(table[3].fragment == "arc");
    assert(table[4].fragment == "brave browser");
    assert(table[5].fragment == "microsoft edge");
    assert(table[6].fragment == "vivaldi");
    assert(table[7].fragment == "safari");
}

/// Where one of the running processes is named like a browser, that browser
/// is probed: by any name that holds its fragment or, for the three with short
/// names, by the very name only.
#[verifier::rlimit(40)]
pub proof fn lemma_running_browser_is_probed(
    running_lower: Seq<Seq<char>>,
    spec: BrowserSpec,
    before: Seq<char>,
    after: Seq<char>,
)
    requires
        browser_table().contains(spec),
    ensures
        !spec.exact && running_lower.contains(before + spec.fragment@ + after) ==> browsers_seen(
            browser_table(),
            running_lower,
        ).contains(spec),
        spec.exact ==> (browsers_seen(browser_table(), running_lower).contains(spec)
            <==> running_lower.contains(spec.fragment@)),
        (forall|i: int|
            0 <= i < running_lower.len() ==> !text::occurs_in(
                spec.fragment@,
                #[trigger] running_lower[i],
            )) ==> !browsers_seen(browser_table(), running_lower).contains(spec),
{
    lemma_probed_iff_running(browser_table(), running_lower, spec);
    text::lemma_occurs(before, spec.fragment@, after);
    if running_lower.contains(before + spec.fragment@ + after) {
        let i = choose|i: int|
            0 <= i < running_lower.len() && running_lower[i] == before + spec.fragment@ + after;
        assert(running_lower[i] == before + spec.fragment@ + after);
    }
    if spec.exact && running_lower.contains(spec.fragment@) {
        let i = choose|i: int| 0 <= i < running_lower.len() && running_lower[i] == spec.fragment@;
        assert(running_lower[i] == spec.fragment@);
    }
    if browser_seen(spec, running_lower) {
        let i = choose|i: int|
            0 <= i < running_lower.len() && browser_named(spec, #[trigger] running_lower[i]);
        let name = running_lower[i];
        if name == spec.fragment@ {
            assert(name.subrange(0int, 0int + spec.fragment@.len()) =~= spec.fragment@);
            assert(text::occurs_in(spec.fragment@, name));
        }
    }
}

/// The browsers are probed in the order of the table.
pub proof fn lemma_browsers_keep_their_order(
    first: Seq<BrowserSpec>,
    second: Seq<BrowserSpec>,
    running_lower: Seq<Seq<char>>,
)
    ensures
        browsers_seen(first + second, running_lower) == browsers_seen(first, running_lower)
            + browsers_seen(second, running_lower),
    decreases second.len(),
{
    if second.len() == 0 {
        assert(first + second =~= first);
        assert(browsers_seen(second, running_lower) =~= Seq::empty());
    } else {
        assert((first + second).drop_last() =~= first + second.drop_last());
        lemma_browsers_keep_their_order(first, second.drop_last(), running_lower);
    }
}

/// A browser that is known by its main process captures where that process
/// does, or a child of it, whatever its name is capitalised like.
pub proof fn lemma_browser_process_captures(
    browser: BrowserSpec,
    root: &'static str,
    mic_live: bool,
    processes: Seq<RunningProcess>,
    active: Set<u32>,
    main: int,
    child: int,
)
    requires
        browser.attribution == (BrowserAttribution::ProcessFamily { root }),
        0 <= main < processes.len(),
        text::ascii_lowercase(processes[main].name@) == text::ascii_lowercase(root@),
    ensures
        active.contains(processes[main].pid) ==> browser_captures(
            browser,
            mic_live,
            Some(processes),
            Some(active),
        ),
        0 <= child < processes.len() && processes[child].ppid == processes[main].pid
            && active.contains(processes[child].pid) ==> browser_captures(
            browser,
            mic_live,
            Some(processes),
            Some(active),
        ),
{
    let roots = browser_roots(root@, processes);
    assert(roots.contains(processes[main].pid));
    families::lemma_family_is_closed(roots, processes);
    assert(browser_family(root@, processes).contains(processes[main].pid));
    if 0 <= child < processes.len() && processes[child].ppid == processes[main].pid {
        assert(browser_family(root@, processes).contains(processes[child].pid));
    }
}

/// A browser whose main process does not run captures nothing, however live
/// the microphone is for others.
pub proof fn lemma_absent_browser_captures_nothing(
    browser: BrowserSpec,
    root: &'static str,
    mic_live: bool,
    processes: Seq<RunningProcess>,
    active: Set<u32>,
)
    requires
        browser.attribution == (BrowserAttribution::ProcessFamily { root }),
        forall|i: int|
            0 <= i < processes.len() ==> text::ascii_lowercase(
                (#[trigger] processes[i]).name@,
            ) != text::ascii_lowercase(root@),
    ensures
        !browser_captures(browser, mic_live, Some(processes), Some(active)),
{
    let roots = browser_roots(root@, processes);
    assert(roots =~= Set::<u32>::empty());
    families::lemma_family_is_least(roots, processes, Set::empty());
}

/// Where input cannot be attributed, be it for the browser or for want of a
/// table or of the capturing processes, a live microphone counts as its own.
pub proof fn lemma_unattributed_browser_follows_the_microphone(
    browser: BrowserSpec,
    mic_live: bool,
    processes: Option<Seq<RunningProcess>>,
    active: Option<Set<u32>>,
)
    ensures
        browser.attribution == BrowserAttribution::GenericGate ==> browser_captures(
            browser,
            mic_live,
            processes,
            active,
        ) == mic_live,
        browser_captures(browser, mic_live, None, active) == mic_live,
        browser_captures(browser, mic_live, processes, None) == mic_live,
{
}

/// A tab is two lines, its address and its title, both without the white space
/// around them; one with neither is passed over, and a last address may stand
/// without a title.
pub proof fn lemma_tabs_are_read_in_pairs(
    url: Seq<char>,
    title: Seq<char>,
    rest: Seq<Seq<char>>,
)
    ensures
        text::trim(url).len() > 0 || text::trim(title).len() > 0 ==> tabs_of_lines(
            seq![url, title] + rest,
        ) == seq![TabModel { url: text::trim(url), title: text::trim(title) }] + tabs_of_lines(
            rest,
        ),
        text::trim(url).len() == 0 && text::trim(title).len() == 0 ==> tabs_of_lines(
            seq![url, title] + rest,
        ) == tabs_of_lines(rest),
        text::trim(url).len() > 0 ==> tabs_of_lines(seq![url]) == seq![
            TabModel { url: text::trim(url), title: Seq::empty() },
        ],
        tabs_of_lines(Seq::empty()) == Seq::<TabModel>::empty(),
{
    let lines = seq![url, title] + rest;
    assert(lines.skip(2) =~= rest);
    assert(lines[0] == url && lines[1] == title);
    assert(tabs_of_lines(seq![url]) =~= (if text::trim(url).len() > 0 {
        seq![TabModel { url: text::trim(url), title: Seq::empty() }]
    } else {
        Seq::empty()
    }));
}

/// Each of these in what a browser said is a refusal, wherever it stands, and
/// nothing else is.
pub proof fn lemma_refusals(before: Seq<char>, after: Seq<char>, stderr_lower: Seq<char>)
    ensures
        denies_permission(before + "not authorized"@ + after),
        denies_permission(before + "not permitted"@ + after),
        denies_permission(before + "(-1743)"@ + after),
        denies_permission(stderr_lower) ==> stderr_lower.contains('n') || stderr_lower.contains(
            '(',
        ),
        denies_permission(stderr_lower) ==> stderr_lower.contains('d') || stderr_lower.contains(
            '7',
        ),
{
    text::lemma_occurs(before, "not authorized"@, after);
    text::lemma_occurs(before, "not permitted"@, after);
    text::lemma_occurs(before, "(-1743)"@, after);
    reveal_strlit("not authorized");
    reveal_strlit("not permitted");
    reveal_strlit("(-1743)");
    assert("not authorized"@[0] == 'n' && "not authorized"@[13] == 'd');
    assert("not permitted"@[0] == 'n' && "not permitted"@[12] == 'd');
    assert("(-1743)"@[0] == '(' && "(-1743)"@[3] == '7');
    if text::occurs_in("not authorized"@, stderr_lower) {
        text::lemma_part_is_in_the_whole("not authorized"@, stderr_lower, 'n');
        text::lemma_part_is_in_the_whole("not authorized"@, stderr_lower, 'd');
    }
    if text::occurs_in("not permitted"@, stderr_lower) {
        text::lemma_part_is_in_the_whole("not permitted"@, stderr_lower, 'n');
        text::lemma_part_is_in_the_whole("not permitted"@, stderr_lower, 'd');
    }
    if text::occurs_in("(-1743)"@, stderr_lower) {
        text::lemma_part_is_in_the_whole("(-1743)"@, stderr_lower, '(');
        text::lemma_part_is_in_the_whole("(-1743)"@, stderr_lower, '7');
    }
}

/// A script speaks to the browser it is for, and asks for the title of a tab
/// by the word that this browser has for it.
#[verifier::rlimit(40)]
pub proof fn lemma_script_speaks_to_its_browser(app_name: Seq<char>)
    ensures
        text::occurs_in(
            "tell application \""@ + app_name,
            script_for(app_name, BrowserKind::ChromeLike),
        ),
        text::occurs_in(
            "tell application \""@ + app_name,
            script_for(app_name, BrowserKind::Safari),
        ),
        text::occurs_in(
            "set tabTitle to (title of t as text)"@,
            script_for(app_name, BrowserKind::ChromeLike),
        ),
        text::occurs_in(
            "set tabTitle to (name of t as text)"@,
            script_for(app_name, BrowserKind::Safari),
        ),
{
    let opening = "tell application \""@;
    let middle =
        "\"\nset output to \"\"\nrepeat with w in windows\n  repeat with t in tabs of w\n    set tabUrl to \"\"\n    set tabTitle to \"\"\n    try\n      set tabUrl to (URL of t as text)\n    end try\n    try\n      set tabTitle to ("@;
    let closing =
        " of t as text)\n    end try\n    set output to output & tabUrl & linefeed & tabTitle & linefeed\n  end repeat\nend repeat\nreturn output\nend tell"@;
    reveal_strlit(
        "\"\nset output to \"\"\nrepeat with w in windows\n  repeat with t in tabs of w\n    set tabUrl to \"\"\n    set tabTitle to \"\"\n    try\n      set tabUrl to (URL of t as text)\n    end try\n    try\n      set tabTitle to (",
    );
    reveal_strlit(
        " of t as text)\n    end try\n    set output to output & tabUrl & linefeed & tabTitle & linefeed\n  end repeat\nend repeat\nreturn output\nend tell",
    );
    reveal_strlit("set tabTitle to (title of t as text)");
    reveal_strlit("set tabTitle to (name of t as text)");
    reveal_strlit("title");
    reveal_strlit("name");
    let chrome = script_for(app_name, BrowserKind::ChromeLike);
    let safari = script_for(app_name, BrowserKind::Safari);
    let start = opening + app_name;
    let first: int = 0;
    assert(chrome.subrange(first, first + start.len()) =~= start);
    assert(safari.subrange(first, first + start.len()) =~= start);
    let k = start.len() + middle.len() - 17;
    let asks_title = "set tabTitle to (title of t as text)"@;
    let asks_name = "set tabTitle to (name of t as text)"@;
    assert(chrome.subrange(k, k + asks_title.len()) =~= asks_title);
    assert(safari.subrange(k, k + asks_name.len()) =~= asks_name);
}

} // verus!
