//! The process table, and reading it from the output of `ps`.

use crate::text;
use vstd::prelude::*;
use vstd::slice::slice_subrange;

verus! {

/// One process of the table.
#[derive(Debug, Clone, PartialEq, Eq)]
pub struct RunningProcess {
    pub pid: u32,
    pub ppid: u32,
    pub name: String,
    /// Outermost `.app` bundle the executable lives in, without the
    /// extension (`/Applications/Slack.app/.../Slack Helper (GPU)` -> `Slack`).
    /// `None` for bare binaries and system daemons.
    pub app: Option<String>,
}

/// What a `RunningProcess` says, with its texts as sequences of characters.
pub struct ProcessModel {
    pub pid: u32,
    pub ppid: u32,
    pub name: Seq<char>,
    pub app: Option<Seq<char>>,
}

impl View for RunningProcess {
    type V = ProcessModel;

    open spec fn view(&self) -> ProcessModel {
        ProcessModel {
            pid: self.pid,
            ppid: self.ppid,
            name: self.name@,
            app: match self.app {
                Some(app) => Some(app@),
                None => None,
            },
        }
    }
}

pub open spec fn models(processes: Seq<RunningProcess>) -> Seq<ProcessModel> {
    processes.map_values(|p: RunningProcess| p@)
}

/// The file name of an executable path: what stands behind its last slash.
pub open spec fn binary_name(command: Seq<char>) -> Seq<char> {
    text::behind_last(text::trim(command), '/')
}

fn binary_name_chars(command: &[char]) -> (name: String)
    ensures
        name@ == binary_name(command@),
{
    text::string_of(text::behind_last_chars(text::trim_chars(command), '/'))
}

pub fn binary_name_from_command(command: &str) -> (name: String)
    ensures
        name@ == binary_name(command@),
{
    binary_name_chars(text::chars_of(command).as_slice())
}

/// The first segment of a path that ends in `.app`, without that ending.
pub open spec fn first_bundle(path: Seq<char>) -> Option<Seq<char>>
    decreases path.len(),
{
    let n = text::position(path, '/') as int;
    let segment = path.take(n);
    if ".app"@.is_suffix_of(segment) {
        Some(segment.take(segment.len() - ".app"@.len()))
    } else if n < path.len() {
        first_bundle(path.skip(n + 1))
    } else {
        None
    }
}

/// Name of the outermost `.app` bundle in an executable path. There is none
/// where the first segment that ends in `.app` is nothing but that.
pub open spec fn app_bundle(command: Seq<char>) -> Option<Seq<char>> {
    match first_bundle(text::trim(command)) {
        Some(stem) => if stem.len() > 0 {
            Some(stem)
        } else {
            None
        },
        None => None,
    }
}

fn app_bundle_chars(command: &[char]) -> (app: Option<String>)
    ensures
        app is Some == app_bundle(command@) is Some,
        app matches Some(a) ==> app_bundle(command@) == Some(a@),
{
    let mut path = text::trim_chars(command);
    loop
        invariant
            first_bundle(path@) == first_bundle(text::trim(command@)),
        decreases path.len(),
    {
        let n: usize = text::position_in(path, '/');
        let segment = slice_subrange(path, 0, n);
        proof {
            assert(segment@ == path@.take(n as int));
        }
        if text::ends_with(segment, ".app") {
            proof {
                reveal_strlit(".app");
            }
            let stem = slice_subrange(segment, 0, n - 4);
            proof {
                assert(stem@ == segment@.take(n - ".app"@.len()));
            }
            if stem.len() > 0 {
                return Some(text::string_of(stem));
            }
            return None;
        }
        if n >= path.len() {
            return None;
        }
        let rest = slice_subrange(path, n + 1, path.len());
        proof {
            assert(rest@ == path@.skip(n + 1));
        }
        path = rest;
    }
}

pub fn app_bundle_from_command(command: &str) -> (app: Option<String>)
    ensures
        app is Some == app_bundle(command@) is Some,
        app matches Some(a) ==> app_bundle(command@) == Some(a@),
{
    app_bundle_chars(text::chars_of(command).as_slice())
}

/// `text` cut in two at the end of its first field; there is no cut where
/// no white space follows the field.
pub open spec fn first_field(text: Seq<char>) -> Option<(Seq<char>, Seq<char>)> {
    let trimmed = text::trim_start(text);
    let n = text::field_len(trimmed) as int;
    if n < trimmed.len() {
        Some((trimmed.take(n), trimmed.skip(n)))
    } else {
        None
    }
}

pub fn split_first_field<'a>(text: &'a [char]) -> (parts: Option<(&'a [char], &'a [char])>)
    ensures
        parts is Some == first_field(text@) is Some,
        parts matches Some(p) ==> first_field(text@) == Some((p.0@, p.1@)),
{
    let trimmed = text::trim_start_chars(text);
    let n: usize = text::field_len_of(trimmed);
    if n < trimmed.len() {
        let field = slice_subrange(trimmed, 0, n);
        let rest = slice_subrange(trimmed, n, trimmed.len());
        proof {
            assert(field@ == trimmed@.take(n as int));
            assert(rest@ == trimmed@.skip(n as int));
        }
        Some((field, rest))
    } else {
        None
    }
}

/// The process that a line of `ps -axo pid=,ppid=,comm=` describes. A line
/// that does not hold two numbers and a command describes none.
pub open spec fn process_of_line(line: Seq<char>) -> Option<ProcessModel> {
    match first_field(text::trim(line)) {
        None => None,
        Some((pid_text, rest)) => match first_field(rest) {
            None => None,
            Some((ppid_text, command)) => match (
                text::parse_u32(pid_text),
                text::parse_u32(ppid_text),
            ) {
                (Some(pid), Some(ppid)) => Some(
                    ProcessModel {
                        pid,
                        ppid,
                        name: binary_name(command),
                        app: app_bundle(command),
                    },
                ),
                _ => None,
            },
        },
    }
}

fn process_from_line(line: &[char]) -> (process: Option<RunningProcess>)
    ensures
        process is Some == process_of_line(line@) is Some,
        process matches Some(p) ==> process_of_line(line@) == Some(p@),
{
    match split_first_field(text::trim_chars(line)) {
        None => None,
        Some((pid_text, rest)) => match split_first_field(rest) {
            None => None,
            Some((ppid_text, command)) => {
                match (text::parse_u32_chars(pid_text), text::parse_u32_chars(ppid_text)) {
                    (Some(pid), Some(ppid)) => Some(
                        RunningProcess {
                            pid,
                            ppid,
                            name: binary_name_chars(command),
                            app: app_bundle_chars(command),
                        },
                    ),
                    _ => None,
                }
            },
        },
    }
}

/// The processes that the lines describe, in their order.
pub open spec fn processes_of_lines(lines: Seq<Seq<char>>) -> Seq<ProcessModel>
    decreases lines.len(),
{
    if lines.len() == 0 {
        Seq::empty()
    } else {
        let earlier = processes_of_lines(lines.drop_last());
        match process_of_line(lines.last()) {
            Some(p) => earlier.push(p),
            None => earlier,
        }
    }
}

pub fn process_snapshots_from_ps_output(text: &str) -> (processes: Vec<RunningProcess>)
    ensures
        models(processes@) == processes_of_lines(text::lines(text@)),
{
    let chars = text::chars_of(text);
    let lines = text::lines_of(chars.as_slice());
    let mut processes: Vec<RunningProcess> = Vec::new();
    let ghost all = text::lines(text@);
    let mut i: usize = 0;
    proof {
        assert(models(processes@) =~= processes_of_lines(all.take(0)));
    }
    while i < lines.len()
        invariant
            i <= lines.len(),
            text::runs(lines@) == all,
            models(processes@) == processes_of_lines(all.take(i as int)),
        decreases lines.len() - i,
    {
        proof {
            assert(all[i as int] == lines@[i as int]@);
            assert(all.take(i + 1).drop_last() =~= all.take(i as int));
            assert(all.take(i + 1).last() == all[i as int]);
        }
        if let Some(process) = process_from_line(lines[i]) {
            proof {
                assert(models(processes@.push(process)) =~= models(processes@).push(process@));
            }
            processes.push(process);
        }
        i += 1;
    }
    proof {
        assert(all.take(i as int) =~= all);
    }
    processes
}

/// The binary names that the lines of `ps -eo comm=` hold; blank lines hold none.
pub open spec fn names_of_lines(lines: Seq<Seq<char>>) -> Seq<Seq<char>>
    decreases lines.len(),
{
    if lines.len() == 0 {
        Seq::empty()
    } else {
        let earlier = names_of_lines(lines.drop_last());
        let trimmed = text::trim(lines.last());
        if trimmed.len() == 0 {
            earlier
        } else {
            earlier.push(binary_name(trimmed))
        }
    }
}

pub fn process_names_from_ps_output(text: &str) -> (names: Vec<String>)
    ensures
        text::texts(names@) == names_of_lines(text::lines(text@)),
{
    let chars = text::chars_of(text);
    let lines = text::lines_of(chars.as_slice());
    let mut names: Vec<String> = Vec::new();
    let ghost all = text::lines(text@);
    let mut i: usize = 0;
    proof {
        assert(text::texts(names@) =~= names_of_lines(all.take(0)));
    }
    while i < lines.len()
        invariant
            i <= lines.len(),
            text::runs(lines@) == all,
            text::texts(names@) == names_of_lines(all.take(i as int)),
        decreases lines.len() - i,
    {
        proof {
            assert(all[i as int] == lines@[i as int]@);
            assert(all.take(i + 1).drop_last() =~= all.take(i as int));
            assert(all.take(i + 1).last() == all[i as int]);
        }
        let trimmed = text::trim_chars(lines[i]);
        if trimmed.len() > 0 {
            let name = binary_name_chars(trimmed);
            proof {
                assert(text::texts(names@.push(name)) =~= text::texts(names@).push(name@));
            }
            names.push(name);
        }
        i += 1;
    }
    proof {
        assert(all.take(i as int) =~= all);
    }
    names
}

pub fn process_names_from_snapshot(processes: &[RunningProcess]) -> (names: Vec<String>)
    ensures
        names@.len() == processes@.len(),
        forall|i: int| 0 <= i < names@.len() ==> (#[trigger] names@[i])@ == processes@[i].name@,
{
    let mut names: Vec<String> = Vec::new();
    let mut i: usize = 0;
    while i < processes.len()
        invariant
            i <= processes.len(),
            names@.len() == i,
            forall|j: int| 0 <= j < i ==> (#[trigger] names@[j])@ == processes@[j].name@,
        decreases processes.len() - i,
    {
        names.push(processes[i].name.clone());
        i += 1;
    }
    names
}

/// A line as `ps` prints it gives its process back: both numbers, and the
/// command to its end, spaces and all.
pub proof fn lemma_listed_process_is_read(
    indent: Seq<char>,
    pid: u32,
    gap: Seq<char>,
    ppid: u32,
    space: Seq<char>,
    command: Seq<char>,
)
    requires
        text::all_white_space(indent),
        text::all_white_space(gap),
        text::all_white_space(space),
        gap.len() > 0,
        space.len() > 0,
        command.len() > 0,
        !text::white_space(command[0]),
        !text::white_space(command.last()),
    ensures
        process_of_line(
            indent + (text::decimal(pid as nat) + gap + (text::decimal(ppid as nat) + space
                + command)),
        ) == Some(
            ProcessModel { pid, ppid, name: binary_name(command), app: app_bundle(command) },
        ),
{
    let first = text::decimal(pid as nat);
    let second = text::decimal(ppid as nat);
    text::lemma_decimal_is_read_back(pid);
    text::lemma_decimal_is_read_back(ppid);
    let tail = second + space + command;
    let body = first + gap + tail;
    assert(!text::white_space(first[0]));
    assert(body[0] == first[0]);
    assert(body.last() == command.last());
    text::lemma_trim_start(indent, body);
    assert(body + Seq::<char>::empty() =~= body);
    text::lemma_trim_end(body, Seq::empty());
    text::lemma_trim_start(Seq::empty(), body);
    assert(Seq::<char>::empty() + body =~= body);
    assert(text::white_space(gap[0]));
    text::lemma_first_field(first, gap, tail);
    assert(body.take(first.len() as int) =~= first);
    let rest = gap + tail;
    assert(body.skip(first.len() as int) =~= rest);
    assert(tail[0] == second[0]);
    assert(!text::white_space(second[0]));
    text::lemma_trim_start(gap, tail);
    assert(text::white_space(space[0]));
    text::lemma_first_field(second, space, command);
    assert(tail.take(second.len() as int) =~= second);
    assert(tail.skip(second.len() as int) =~= space + command);
    text::lemma_trim_start(space, command);
    text::lemma_trim_start(Seq::empty(), command);
    assert(Seq::<char>::empty() + command =~= command);
    assert(command + Seq::<char>::empty() =~= command);
    text::lemma_trim_end(command, Seq::empty());
}

/// A line describes no process exactly when it has fewer than three fields, or
/// its first or second field is no number of 32 bits.
pub proof fn lemma_when_a_line_is_skipped(line: Seq<char>)
    ensures
        process_of_line(line) is None <==> {
            let fields = text::fields(line);
            ||| fields.len() < 3
            ||| text::parse_u32(fields[0]) is None
            ||| text::parse_u32(fields[1]) is None
        },
{
    let fields = text::fields(line);
    let body = text::trim(line);
    text::lemma_fields_of_trimmed(line);
    assert(text::fields(body) == fields);
    if body.len() > 0 {
        text::lemma_end_stays(body);
        let n = text::field_len(body) as int;
        let rest = body.skip(n);
        assert(fields == seq![body.take(n)] + text::fields(rest));
        if n < body.len() {
            assert(rest.last() == body.last());
            text::lemma_end_stays(rest);
            let second = text::trim_start(rest);
            let m = text::field_len(second) as int;
            let command = second.skip(m);
            assert(text::fields(rest) == seq![second.take(m)] + text::fields(command));
            assert(fields[0] == body.take(n));
            assert(fields[1] == second.take(m));
            if m < second.len() {
                assert(command.last() == second.last());
                text::lemma_end_stays(command);
            } else {
                assert(text::fields(command).len() == 0);
            }
        } else {
            assert(text::fields(rest).len() == 0);
        }
    }
}

/// The processes of two lists of lines, one behind the other.
pub proof fn lemma_processes_in_order(first: Seq<Seq<char>>, second: Seq<Seq<char>>)
    ensures
        processes_of_lines(first + second) == processes_of_lines(first) + processes_of_lines(
            second,
        ),
    decreases second.len(),
{
    if second.len() == 0 {
        assert(first + second =~= first);
        assert(processes_of_lines(first) + processes_of_lines(second) =~= processes_of_lines(
            first,
        ));
    } else {
        assert((first + second).drop_last() =~= first + second.drop_last());
        assert((first + second).last() == second.last());
        lemma_processes_in_order(first, second.drop_last());
        assert(processes_of_lines(first + second) =~= processes_of_lines(first)
            + processes_of_lines(second));
    }
}

/// Two outputs with a line feed between them give the processes of the first
/// and then those of the second.
pub proof fn lemma_joined_outputs(a: Seq<char>, b: Seq<char>)
    ensures
        processes_of_lines(text::lines(a + "\n"@ + b)) == processes_of_lines(text::lines(a))
            + processes_of_lines(text::lines(b)),
{
    reveal_strlit("\n");
    let ended = a.push('\n');
    assert(a + "\n"@ =~= ended);
    text::lemma_lines_of_joined(a, b);
    lemma_processes_in_order(text::lines(ended), text::lines(b));
    text::lemma_lines_of_ended(a);
    let lines = text::lines(a);
    let after = text::lines(ended);
    if a.len() == 0 || a.last() == '\n' {
        lemma_when_a_line_is_skipped(Seq::empty());
        assert(text::fields(Seq::empty()).len() == 0);
        assert(after.drop_last() =~= lines);
        assert(after.last() =~= Seq::empty());
    } else {
        let last = lines.last();
        let bare = text::without_carriage_return(last);
        assert(after.drop_last() =~= lines.drop_last());
        assert(after.last() == bare);
        if bare != last {
            let blank = seq!['\r'];
            assert(text::all_white_space(blank));
            assert(last =~= bare + blank);
            text::lemma_trim_ignores_end(bare, blank);
        }
        assert(process_of_line(bare) == process_of_line(last));
    }
    assert(processes_of_lines(after) == processes_of_lines(lines));
}

/// The name of a binary is what stands behind the last slash of its path, and
/// the whole of a path without one.
pub proof fn lemma_binary_is_named_by_its_path(
    directory: Seq<char>,
    name: Seq<char>,
    indent: Seq<char>,
    blank: Seq<char>,
)
    requires
        text::all_white_space(indent),
        text::all_white_space(blank),
        name.len() > 0,
        !name.contains('/'),
        !text::white_space(name[0]),
        !text::white_space(name.last()),
        directory.len() > 0 ==> !text::white_space(directory[0]),
    ensures
        binary_name(indent + (directory.push('/') + name) + blank) == name,
        binary_name(indent + name + blank) == name,
{
    let path = directory.push('/') + name;
    assert(path[0] == (if directory.len() > 0 {
        directory[0]
    } else {
        '/'
    }));
    assert(path.last() == name.last());
    text::lemma_trim_takes_what_is_around(indent, path, blank);
    text::lemma_trim_takes_what_is_around(indent, name, blank);
    text::lemma_cut_at(directory, name, '/');
}

/// A process belongs to the outermost bundle of its path: the first directory
/// that ends in `.app`, whatever stands inside it.
#[verifier::rlimit(40)]
pub proof fn lemma_outermost_bundle(
    start: Seq<char>,
    name: Seq<char>,
    inside: Seq<char>,
)
    requires
        start.len() == 0 || start.last() == '/',
        first_bundle(start) is None,
        !name.contains('/'),
        inside.len() > 0 ==> inside[0] == '/',
    ensures
        first_bundle(start + (name + ".app"@ + inside)) == Some(name),
    decreases start.len(),
{
    reveal_strlit(".app");
    let bundle = name + ".app"@ + inside;
    let path = start + bundle;
    if start.len() == 0 {
        assert(path =~= bundle);
        let named = name + ".app"@;
        assert(!named.contains('/')) by {
            if named.contains('/') {
                let i = choose|i: int| 0 <= i < named.len() && named[i] == '/';
                if i < name.len() {
                    assert(name[i] == '/');
                }
            }
        }
        if inside.len() == 0 {
            assert(bundle =~= named);
            text::lemma_cut_at(named, Seq::empty(), '/');
            assert(text::before(bundle, '/') == named);
            text::lemma_position_fits(bundle, '/');
        } else {
            assert(bundle =~= named.push('/') + inside.drop_first());
            text::lemma_cut_at(named, inside.drop_first(), '/');
            text::lemma_position_fits(bundle, '/');
        }
        assert(text::before(bundle, '/') == named);
        assert(named.subrange(name.len() as int, named.len() as int) =~= ".app"@);
        assert(named.take(named.len() - 4) =~= name);
    } else {
        let n = text::position(start, '/') as int;
        lemma_slash_is_found(start);
        let segment = start.take(n);
        let later = start.skip(n + 1);
        assert(start =~= segment.push('/') + later);
        assert(path =~= segment.push('/') + (later + bundle));
        assert(!segment.contains('/'));
        text::lemma_cut_at(segment, later + bundle, '/');
        text::lemma_position_fits(path, '/');
        assert(text::before(path, '/') == segment);
        assert(text::position(path, '/') == n) by {
            assert(text::before(path, '/').len() == text::position(path, '/'));
        }
        assert(path.skip(n + 1) =~= later + bundle);
        if later.len() > 0 {
            assert(later.last() == start.last());
        }
        lemma_outermost_bundle(later, name, inside);
    }
}

proof fn lemma_slash_is_found(s: Seq<char>)
    requires
        s.len() > 0,
        s.last() == '/',
    ensures
        text::position(s, '/') < s.len(),
        s[text::position(s, '/') as int] == '/',
        !s.take(text::position(s, '/') as int).contains('/'),
    decreases s.len(),
{
    if s[0] == '/' {
        assert(s.take(0) =~= Seq::empty());
    } else {
        let rest = s.drop_first();
        assert(rest.last() == s.last());
        lemma_slash_is_found(rest);
        let n = text::position(s, '/') as int;
        assert(s[n] == rest[n - 1]);
        assert forall|i: int| 0 <= i < n implies s.take(n)[i] != '/' by {
            if i > 0 {
                assert(s.take(n)[i] == rest.take(n - 1)[i - 1]);
                assert(rest.take(n - 1).contains(rest.take(n - 1)[i - 1]));
            }
        }
    }
}

/// A path without `.app` in it belongs to no bundle, and neither does one whose
/// first bundle has no name.
pub proof fn lemma_no_bundle(path: Seq<char>, command: Seq<char>)
    ensures
        !text::occurs_in(".app"@, path) ==> first_bundle(path) is None,
        first_bundle(text::trim(command)) == Some(Seq::<char>::empty()) ==> app_bundle(command)
            is None,
    decreases path.len(),
{
    reveal_strlit(".app");
    if !text::occurs_in(".app"@, path) {
        let n = text::position(path, '/') as int;
        text::lemma_position_fits(path, '/');
        let segment = path.take(n);
        if ".app"@.is_suffix_of(segment) {
            assert(path.subrange(n - 4, n - 4 + ".app"@.len()) =~= segment.subrange(n - 4, n));
            assert(text::occurs_in(".app"@, path));
        }
        if n < path.len() {
            let rest = path.skip(n + 1);
            if text::occurs_in(".app"@, rest) {
                let i = choose|i: int|
                    0 <= i <= rest.len() - ".app"@.len() && #[trigger] rest.subrange(
                        i,
                        i + ".app"@.len(),
                    ) == ".app"@;
                let k = i + n + 1;
                assert(path.subrange(k, k + ".app"@.len()) =~= rest.subrange(
                    i,
                    i + ".app"@.len(),
                ));
            }
            lemma_no_bundle(rest, command);
        }
    }
}

/// Every line of names that is not blank names a process, in order.
pub proof fn lemma_names_in_order(lines: Seq<Seq<char>>, line: Seq<char>)
    ensures
        text::trim(line).len() > 0 ==> names_of_lines(lines.push(line)) == names_of_lines(
            lines,
        ).push(binary_name(text::trim(line))),
        text::trim(line).len() == 0 ==> names_of_lines(lines.push(line)) == names_of_lines(lines),
        names_of_lines(Seq::empty()) == Seq::<Seq<char>>::empty(),
{
    assert(lines.push(line).drop_last() =~= lines);
}

/// The bundle of a command is the outermost one of its path, white space
/// around the command aside.
pub proof fn lemma_bundle_of_a_command(
    indent: Seq<char>,
    directory: Seq<char>,
    name: Seq<char>,
    inside: Seq<char>,
    blank: Seq<char>,
)
    requires
        text::all_white_space(indent),
        text::all_white_space(blank),
        !text::occurs_in(".app"@, directory.push('/')),
        directory.len() > 0 ==> !text::white_space(directory[0]),
        name.len() > 0,
        !name.contains('/'),
        inside.len() > 0 ==> inside[0] == '/' && !text::white_space(inside.last()),
    ensures
        app_bundle(indent + (directory.push('/') + (name + ".app"@ + inside)) + blank) == Some(
            name,
        ),
{
    let path = directory.push('/') + (name + ".app"@ + inside);
    reveal_strlit(".app");
    assert(path[0] == (if directory.len() > 0 {
        directory[0]
    } else {
        '/'
    }));
    assert(path.last() == (if inside.len() > 0 {
        inside.last()
    } else {
        'p'
    }));
    text::lemma_trim_takes_what_is_around(indent, path, blank);
    lemma_no_bundle(directory.push('/'), path);
    lemma_outermost_bundle(directory.push('/'), name, inside);
}

/// Every line that can be read is a process, in order; the others are passed
/// over.
pub proof fn lemma_each_readable_line_is_a_process(lines: Seq<Seq<char>>, line: Seq<char>)
    ensures
        process_of_line(line) matches Some(process) ==> processes_of_lines(lines.push(line))
            == processes_of_lines(lines).push(process),
        process_of_line(line) is None ==> processes_of_lines(lines.push(line))
            == processes_of_lines(lines),
        processes_of_lines(Seq::empty()) == Seq::<ProcessModel>::empty(),
{
    assert(lines.push(line).drop_last() =~= lines);
}

} // verus!
