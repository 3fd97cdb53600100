//! What the command line and the settings ask for at startup.

use crate::text;
use crate::text::{chars_of, same_text, strip_prefix_chars};
use vstd::prelude::*;
use vstd::slice::slice_subrange;

verus! {

/// The exit code for a command line that cannot be used.
pub const EXIT_USAGE: i32 = 64;

pub const APPLE_SPEECH_TRANSPORT_ACCEPTANCE_ARG: &'static str = "--apple-speech-transport-acceptance";

pub const APPLE_SPEECH_RUNTIME_ACCEPTANCE_ARG: &'static str = "--apple-speech-runtime-acceptance";

/// Whether an acceptance run is asked for.
#[derive(Debug, Clone, Copy, PartialEq, Eq, Structural)]
pub enum AcceptanceRequest {
    NotRequested,
    /// It takes no further arguments: leave with this code.
    Refused { code: i32 },
    Run,
}

/// Looks at the arguments behind the program's name: the flag has to be the
/// first and only one.
pub fn acceptance_request(args: &[String], flag: &str) -> (request: AcceptanceRequest)
    ensures
        request == (if args@.len() == 0 || args@[0]@ != flag@ {
            AcceptanceRequest::NotRequested
        } else if args@.len() > 1 {
            AcceptanceRequest::Refused { code: EXIT_USAGE }
        } else {
            AcceptanceRequest::Run
        }),
{
    if args.len() == 0 || !same_text(args[0].as_str(), flag) {
        return AcceptanceRequest::NotRequested;
    }
    if args.len() > 1 {
        AcceptanceRequest::Refused { code: EXIT_USAGE }
    } else {
        AcceptanceRequest::Run
    }
}

/// Whether the arguments behind the program's name hold this flag.
pub fn has_flag(args: &[String], flag: &str) -> (yes: bool)
    ensures
        yes == text::texts(args@).contains(flag@),
{
    let mut i: usize = 0;
    while i < args.len()
        invariant
            i <= args.len(),
            forall|j: int| 0 <= j < i ==> (#[trigger] args@[j])@ != flag@,
        decreases args.len() - i,
    {
        if same_text(args[i].as_str(), flag) {
            proof {
                assert(text::texts(args@)[i as int] == flag@);
            }
            return true;
        }
        i += 1;
    }
    proof {
        let all = text::texts(args@);
        if all.contains(flag@) {
            let j = choose|j: int| 0 <= j < all.len() && all[j] == flag@;
            assert(args@[j]@ == flag@);
        }
    }
    false
}

/// Whether this process is to work off the queue and leave.
pub fn is_queue_worker(args: &[String]) -> (yes: bool)
    ensures
        yes == text::texts(args@).contains("--process-queue-worker"@),
{
    has_flag(args, "--process-queue-worker")
}

/// The exit code of a worker that went well or not.
pub fn worker_exit_code(ok: bool) -> (code: i32)
    ensures
        code == (if ok {
            0i32
        } else {
            1i32
        }),
{
    if ok {
        0
    } else {
        1
    }
}

/// What a diagnostic of the hotkey looks at, and where its report goes.
#[derive(Debug, Clone, PartialEq, Eq)]
pub struct HotkeyDiagnostic {
    pub keycode: i64,
    pub output_path: Option<String>,
}

pub struct DiagnosticModel {
    pub keycode: i64,
    pub output_path: Option<Seq<char>>,
}

impl View for HotkeyDiagnostic {
    type V = DiagnosticModel;

    open spec fn view(&self) -> DiagnosticModel {
        DiagnosticModel {
            keycode: self.keycode,
            output_path: match self.output_path {
                Some(p) => Some(p@),
                None => None,
            },
        }
    }
}

/// With a key code that can be read in place of the one so far.
pub open spec fn with_keycode(d: DiagnosticModel, value: Seq<char>) -> DiagnosticModel {
    match text::parse_i64(value) {
        Some(keycode) => DiagnosticModel { keycode, ..d },
        None => d,
    }
}

/// The diagnostic after these arguments. A value stands behind its option,
/// or behind an equals sign; what cannot be read is passed over.
pub open spec fn diagnostic_after(args: Seq<Seq<char>>, d: DiagnosticModel) -> DiagnosticModel
    decreases args.len(),
{
    if args.len() == 0 {
        d
    } else if args[0] == "--diagnose-hotkey-keycode"@ {
        if args.len() == 1 {
            d
        } else {
            diagnostic_after(args.skip(2), with_keycode(d, args[1]))
        }
    } else if args[0] == "--diagnose-hotkey-output"@ {
        if args.len() == 1 {
            d
        } else {
            diagnostic_after(
                args.skip(2),
                DiagnosticModel { output_path: Some(args[1]), ..d },
            )
        }
    } else {
        let rest = args.skip(1);
        match text::strip_prefix(args[0], "--diagnose-hotkey-keycode="@) {
            Some(value) => diagnostic_after(rest, with_keycode(d, value)),
            None => match text::strip_prefix(args[0], "--diagnose-hotkey-output="@) {
                Some(value) => diagnostic_after(
                    rest,
                    DiagnosticModel { output_path: Some(value), ..d },
                ),
                None => diagnostic_after(rest, d),
            },
        }
    }
}

/// The diagnostic that the arguments behind the program's name ask for. It
/// starts from the configured key, or from the default one where no hotkey is
/// enabled.
pub fn hotkey_diagnostic(
    args: &[String],
    hotkey_enabled: bool,
    configured_keycode: i64,
    default_keycode: i64,
) -> (diagnostic: Option<HotkeyDiagnostic>)
    ensures
        match diagnostic {
            Some(d) => text::texts(args@).contains("--diagnose-hotkey"@) && d@ == diagnostic_after(
                text::texts(args@),
                DiagnosticModel {
                    keycode: if hotkey_enabled {
                        configured_keycode
                    } else {
                        default_keycode
                    },
                    output_path: None,
                },
            ),
            None => !text::texts(args@).contains("--diagnose-hotkey"@),
        },
{
    if !has_flag(args, "--diagnose-hotkey") {
        return None;
    }
    let mut d = HotkeyDiagnostic {
        keycode: if hotkey_enabled {
            configured_keycode
        } else {
            default_keycode
        },
        output_path: None,
    };
    let ghost all = text::texts(args@);
    let ghost start = d@;
    let mut i: usize = 0;
    proof {
        assert(all.skip(0) =~= all);
    }
    while i < args.len()
        invariant
            i <= args.len(),
            all == text::texts(args@),
            all.contains("--diagnose-hotkey"@),
            start == (DiagnosticModel {
                keycode: if hotkey_enabled {
                    configured_keycode
                } else {
                    default_keycode
                },
                output_path: None,
            }),
            diagnostic_after(all, start) == diagnostic_after(all.skip(i as int), d@),
        decreases args.len() - i,
    {
        let arg = args[i].as_str();
        let ghost rest = all.skip(i as int);
        proof {
            assert(rest[0] == arg@);
            assert(rest.skip(1) =~= all.skip(i + 1));
            assert(i + 1 < args.len() ==> rest[1] == args@[i + 1]@);
            assert(i + 1 < args.len() ==> rest.skip(2) =~= all.skip(i + 2));
        }
        if same_text(arg, "--diagnose-hotkey-keycode") {
            if i + 1 >= args.len() {
                return Some(d);
            }
            if let Some(keycode) = text::parse_i64_chars(chars_of(args[i + 1].as_str()).as_slice()) {
                d.keycode = keycode;
            }
            i += 2;
        } else if same_text(arg, "--diagnose-hotkey-output") {
            if i + 1 >= args.len() {
                return Some(d);
            }
            d.output_path = Some(args[i + 1].clone());
            i += 2;
        } else {
            let chars = chars_of(arg);
            if let Some(value) = strip_prefix_chars(chars.as_slice(), "--diagnose-hotkey-keycode=") {
                if let Some(keycode) = text::parse_i64_chars(value) {
                    d.keycode = keycode;
                }
            } else if let Some(value) = strip_prefix_chars(
                chars.as_slice(),
                "--diagnose-hotkey-output=",
            ) {
                d.output_path = Some(text::string_of(value));
            }
            i += 1;
        }
    }
    Some(d)
}

/// The bundle that the application's binary lives in.
pub open spec fn bundle_of(exe: Seq<char>) -> Option<Seq<char>> {
    if "/Contents/MacOS/minutes-app"@.is_suffix_of(exe) {
        Some(exe.take(exe.len() - "/Contents/MacOS/minutes-app"@.len()))
    } else {
        None
    }
}

pub fn bundle_root(exe: &str) -> (root: Option<String>)
    ensures
        match root {
            Some(r) => bundle_of(exe@) == Some(r@),
            None => bundle_of(exe@) is None,
        },
{
    let chars = chars_of(exe);
    if text::ends_with(chars.as_slice(), "/Contents/MacOS/minutes-app") {
        let suffix: usize = chars_of("/Contents/MacOS/minutes-app").len();
        let head = slice_subrange(chars.as_slice(), 0, chars.len() - suffix);
        proof {
            assert(head@ == exe@.take(exe@.len() - "/Contents/MacOS/minutes-app"@.len()));
        }
        Some(text::string_of(head))
    } else {
        None
    }
}

/// The exit code of a diagnostic: zero where the monitor is active.
pub fn diagnostic_exit_code(status: &str) -> (code: i32)
    ensures
        code == (if status@ == "active"@ {
            0i32
        } else {
            2i32
        }),
{
    if same_text(status, "active") {
        0
    } else {
        2
    }
}

pub const KEYCODE_FN: i64 = 63;

/// The shortcut of dictation: its name, and the code of its key, or -1 for a
/// combination of keys.
pub open spec fn dictation_shortcut_for(
    hotkey_enabled: bool,
    shortcut_enabled: bool,
    keycode: i64,
    shortcut: Seq<char>,
) -> Option<(Seq<char>, i64)> {
    if hotkey_enabled {
        Some(
            (
                if keycode == KEYCODE_FN {
                    "fn"@
                } else {
                    "CapsLock"@
                },
                keycode,
            ),
        )
    } else if shortcut_enabled {
        Some((shortcut, -1i64))
    } else {
        None
    }
}

/// The shortcut to restore; a single key goes before a combination. A key
/// without a name of its own goes by that of caps lock.
pub fn dictation_shortcut(
    hotkey_enabled: bool,
    shortcut_enabled: bool,
    keycode: i64,
    shortcut: &str,
) -> (restored: Option<(String, i64)>)
    ensures
        match restored {
            Some((name, code)) => dictation_shortcut_for(
                hotkey_enabled,
                shortcut_enabled,
                keycode,
                shortcut@,
            ) == Some((name@, code)),
            None => dictation_shortcut_for(
                hotkey_enabled,
                shortcut_enabled,
                keycode,
                shortcut@,
            ) is None,
        },
{
    if hotkey_enabled {
        let name = if keycode == KEYCODE_FN {
            "fn"
        } else {
            "CapsLock"
        };
        Some((name.to_owned(), keycode))
    } else if shortcut_enabled {
        Some((shortcut.to_owned(), -1))
    } else {
        None
    }
}

pub const DEFAULT_LIVE_SHORTCUT: &'static str = "CmdOrCtrl+Shift+L";

pub const DEFAULT_PALETTE_SHORTCUT: &'static str = "CmdOrCtrl+Shift+K";

/// The configured shortcut, or the default where none is.
pub fn shortcut_or_default(configured: &str, default_shortcut: &str) -> (shortcut: String)
    ensures
        shortcut@ == (if configured@.len() == 0 {
            default_shortcut@
        } else {
            configured@
        }),
{
    if configured.is_empty() {
        default_shortcut.to_owned()
    } else {
        configured.to_owned()
    }
}

/// Who handles a shortcut that the shortcut manager does not know.
#[derive(Debug, Clone, Copy, PartialEq, Eq, Structural)]
pub enum ShortcutRoute {
    Dictation,
    LiveTranscript,
    Palette,
    GlobalHotkey,
}

/// Compares the id with those of the configured shortcuts, in this order.
pub fn route_shortcut(
    id: u32,
    dictation: Option<u32>,
    live: Option<u32>,
    palette: Option<u32>,
) -> (route: ShortcutRoute)
    ensures
        route == (if dictation == Some(id) {
            ShortcutRoute::Dictation
        } else if live == Some(id) {
            ShortcutRoute::LiveTranscript
        } else if palette == Some(id) {
            ShortcutRoute::Palette
        } else {
            ShortcutRoute::GlobalHotkey
        }),
{
    if let Some(other) = dictation {
        if other == id {
            return ShortcutRoute::Dictation;
        }
    }
    if let Some(other) = live {
        if other == id {
            return ShortcutRoute::LiveTranscript;
        }
    }
    if let Some(other) = palette {
        if other == id {
            return ShortcutRoute::Palette;
        }
    }
    ShortcutRoute::GlobalHotkey
}

/// An option with its value behind an equals sign is the same as one with its
/// value in the next argument.
pub proof fn lemma_both_spellings_are_the_same(
    value: Seq<char>,
    rest: Seq<Seq<char>>,
    d: DiagnosticModel,
)
    ensures
        diagnostic_after(seq!["--diagnose-hotkey-keycode="@ + value] + rest, d)
            == diagnostic_after(seq!["--diagnose-hotkey-keycode"@, value] + rest, d),
        diagnostic_after(seq!["--diagnose-hotkey-output="@ + value] + rest, d) == diagnostic_after(
            seq!["--diagnose-hotkey-output"@, value] + rest,
            d,
        ),
{
    lemma_keycode_is_taken(value, rest, d);
    lemma_output_is_taken(value, rest, d);
}

#[verifier::rlimit(40)]
proof fn lemma_options_differ(value: Seq<char>)
    ensures
        "--diagnose-hotkey-keycode"@ != "--diagnose-hotkey-output"@,
        "--diagnose-hotkey-keycode="@ + value != "--diagnose-hotkey-keycode"@,
        "--diagnose-hotkey-keycode="@ + value != "--diagnose-hotkey-output"@,
        "--diagnose-hotkey-output="@ + value != "--diagnose-hotkey-keycode"@,
        "--diagnose-hotkey-output="@ + value != "--diagnose-hotkey-output"@,
        text::strip_prefix(
            "--diagnose-hotkey-keycode="@ + value,
            "--diagnose-hotkey-keycode="@,
        ) == Some(value),
        text::strip_prefix("--diagnose-hotkey-output="@ + value, "--diagnose-hotkey-output="@)
            == Some(value),
        text::strip_prefix(
            "--diagnose-hotkey-output="@ + value,
            "--diagnose-hotkey-keycode="@,
        ) is None,
{
    reveal_strlit("--diagnose-hotkey-keycode");
    reveal_strlit("--diagnose-hotkey-output");
    reveal_strlit("--diagnose-hotkey-keycode=");
    reveal_strlit("--diagnose-hotkey-output=");
    let keycode = "--diagnose-hotkey-keycode="@ + value;
    let output = "--diagnose-hotkey-output="@ + value;
    assert("--diagnose-hotkey-keycode"@.len() == 25 && "--diagnose-hotkey-output"@.len() == 24);
    assert(keycode.len() >= 26);
    assert(output[18] == 'o' && "--diagnose-hotkey-keycode"@[18] == 'k'
        && "--diagnose-hotkey-keycode="@[18] == 'k');
    assert(output.len() >= 25);
    assert(keycode.subrange(0, 26) =~= "--diagnose-hotkey-keycode="@);
    assert(keycode.skip(26) =~= value);
    assert(output.subrange(0, 25) =~= "--diagnose-hotkey-output="@);
    assert(output.skip(25) =~= value);
    if "--diagnose-hotkey-keycode="@.is_prefix_of(output) {
        assert(output.subrange(0, 26)[18] == output[18]);
    }
}

/// A key code is taken where it is a number, and left as it was otherwise;
/// the arguments after it are read on.
#[verifier::rlimit(40)]
pub proof fn lemma_keycode_is_taken(value: Seq<char>, rest: Seq<Seq<char>>, d: DiagnosticModel)
    ensures
        ({
            let read = DiagnosticModel {
                keycode: match text::parse_i64(value) {
                    Some(n) => n,
                    None => d.keycode,
                },
                output_path: d.output_path,
            };
            &&& diagnostic_after(seq!["--diagnose-hotkey-keycode"@, value] + rest, d)
                == diagnostic_after(rest, read)
            &&& diagnostic_after(seq!["--diagnose-hotkey-keycode="@ + value] + rest, d)
                == diagnostic_after(rest, read)
        }),
        diagnostic_after(seq!["--diagnose-hotkey-keycode"@], d) == d,
        diagnostic_after(Seq::empty(), d) == d,
{
    lemma_options_differ(value);
    let apart = seq!["--diagnose-hotkey-keycode"@, value] + rest;
    assert(apart.skip(2) =~= rest);
    assert(apart[0] == "--diagnose-hotkey-keycode"@ && apart[1] == value);
    let joint = seq!["--diagnose-hotkey-keycode="@ + value] + rest;
    assert(joint.skip(1) =~= rest);
    assert(joint[0] == "--diagnose-hotkey-keycode="@ + value);
    assert(seq!["--diagnose-hotkey-keycode"@][0] == "--diagnose-hotkey-keycode"@);
}

/// An output is taken as it stands; the arguments after it are read on.
pub proof fn lemma_output_is_taken(value: Seq<char>, rest: Seq<Seq<char>>, d: DiagnosticModel)
    ensures
        ({
            let read = DiagnosticModel { keycode: d.keycode, output_path: Some(value) };
            &&& diagnostic_after(seq!["--diagnose-hotkey-output"@, value] + rest, d)
                == diagnostic_after(rest, read)
            &&& diagnostic_after(seq!["--diagnose-hotkey-output="@ + value] + rest, d)
                == diagnostic_after(rest, read)
        }),
        diagnostic_after(seq!["--diagnose-hotkey-output"@], d) == d,
{
    lemma_options_differ(value);
    let apart = seq!["--diagnose-hotkey-output"@, value] + rest;
    assert(apart.skip(2) =~= rest);
    assert(apart[0] == "--diagnose-hotkey-output"@ && apart[1] == value);
    let joint = seq!["--diagnose-hotkey-output="@ + value] + rest;
    assert(joint.skip(1) =~= rest);
    assert(joint[0] == "--diagnose-hotkey-output="@ + value);
    assert(seq!["--diagnose-hotkey-output"@][0] == "--diagnose-hotkey-output"@);
}

/// Other arguments are passed over.
pub proof fn lemma_other_arguments_are_passed_over(
    arg: Seq<char>,
    rest: Seq<Seq<char>>,
    d: DiagnosticModel,
)
    requires
        arg.len() < 3 || arg[2] != 'd',
    ensures
        diagnostic_after(seq![arg] + rest, d) == diagnostic_after(rest, d),
{
    reveal_strlit("--diagnose-hotkey-keycode");
    reveal_strlit("--diagnose-hotkey-output");
    reveal_strlit("--diagnose-hotkey-keycode=");
    reveal_strlit("--diagnose-hotkey-output=");
    let args = seq![arg] + rest;
    assert(args.skip(1) =~= rest);
    assert(args[0] == arg);
    assert("--diagnose-hotkey-keycode"@[2] == 'd' && "--diagnose-hotkey-output"@[2] == 'd');
    if "--diagnose-hotkey-keycode="@.is_prefix_of(arg) {
        assert(arg.subrange(0, 26)[2] == arg[2]);
        assert("--diagnose-hotkey-keycode="@[2] == 'd');
    }
    if "--diagnose-hotkey-output="@.is_prefix_of(arg) {
        assert(arg.subrange(0, 25)[2] == arg[2]);
        assert("--diagnose-hotkey-output="@[2] == 'd');
    }
}

/// The bundle is the directory that the binary lies in, three levels up; a
/// binary that lies elsewhere has none.
pub proof fn lemma_bundle_of_the_binary(root: Seq<char>, elsewhere: Seq<char>)
    requires
        elsewhere.len() == 0 || elsewhere.last() != 'p',
    ensures
        bundle_of(root + "/Contents/MacOS/minutes-app"@) == Some(root),
        bundle_of(elsewhere) is None,
{
    reveal_strlit("/Contents/MacOS/minutes-app");
    let part = "/Contents/MacOS/minutes-app"@;
    let exe = root + part;
    assert(exe.subrange(exe.len() - part.len(), exe.len() as int) =~= part);
    assert(exe.take(exe.len() - part.len()) =~= root);
    assert(part.len() == 27 && part[26] == 'p');
    if part.is_suffix_of(elsewhere) {
        let n = elsewhere.len() as int;
        assert(elsewhere.subrange(n - 27, n)[26] == elsewhere[n - 1]);
    }
}

/// The hotkey goes before the shortcut, the fn key under its name and any
/// other as Caps Lock; without either there is nothing to press.
pub proof fn lemma_which_key_starts_a_dictation(
    shortcut_enabled: bool,
    keycode: i64,
    shortcut: Seq<char>,
)
    ensures
        dictation_shortcut_for(true, shortcut_enabled, 63, shortcut) == Some(("fn"@, 63i64)),
        keycode != 63 ==> dictation_shortcut_for(true, shortcut_enabled, keycode, shortcut) == Some(
            ("CapsLock"@, keycode),
        ),
        dictation_shortcut_for(false, true, keycode, shortcut) == Some((shortcut, -1i64)),
        dictation_shortcut_for(false, false, keycode, shortcut) is None,
{
}

/// The code that wrong usage ends with, the two acceptance flags, and the
/// shortcuts where none are configured.
pub proof fn lemma_codes_and_defaults()
    ensures
        EXIT_USAGE == 64,
        DEFAULT_LIVE_SHORTCUT@ == "CmdOrCtrl+Shift+L"@,
        DEFAULT_PALETTE_SHORTCUT@ == "CmdOrCtrl+Shift+K"@,
        APPLE_SPEECH_TRANSPORT_ACCEPTANCE_ARG@ == "--apple-speech-transport-acceptance"@,
        APPLE_SPEECH_RUNTIME_ACCEPTANCE_ARG@ == "--apple-speech-runtime-acceptance"@,
{
}

} // verus!
