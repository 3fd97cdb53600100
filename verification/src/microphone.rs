//! Which microphone a native call capture uses, and what the user is told
//! when it is not the configured one.

use crate::text;
use crate::text::{chars_of, joined, same_text};
use vstd::prelude::*;

verus! {

/// How long the helper's word on its microphone is waited for.
pub const MICROPHONE_STARTUP_STATUS_TIMEOUT_SECS: u64 = 2;

#[derive(Debug, Clone, PartialEq, Eq)]
pub enum MicrophoneSelection {
    Configured(String),
    ConfiguredMissing(String),
    Default,
}

/// What the helper says of the microphone it started with.
#[derive(Debug, Clone, PartialEq, Eq)]
pub enum MicrophoneStartupStatus {
    Selected(String),
    Fallback(String),
}

/// A selection or a status with its name as a sequence of characters.
pub enum SelectionModel {
    Configured(Seq<char>),
    ConfiguredMissing(Seq<char>),
    Default,
}

impl View for MicrophoneSelection {
    type V = SelectionModel;

    open spec fn view(&self) -> SelectionModel {
        match *self {
            MicrophoneSelection::Configured(name) => SelectionModel::Configured(name@),
            MicrophoneSelection::ConfiguredMissing(name) => SelectionModel::ConfiguredMissing(
                name@,
            ),
            MicrophoneSelection::Default => SelectionModel::Default,
        }
    }
}

pub enum StatusModel {
    Selected(Seq<char>),
    Fallback(Seq<char>),
}

impl View for MicrophoneStartupStatus {
    type V = StatusModel;

    open spec fn view(&self) -> StatusModel {
        match *self {
            MicrophoneStartupStatus::Selected(name) => StatusModel::Selected(name@),
            MicrophoneStartupStatus::Fallback(name) => StatusModel::Fallback(name@),
        }
    }
}

/// The configured name, trimmed; a blank one is none.
pub open spec fn configured_name(configured: Option<Seq<char>>) -> Option<Seq<char>> {
    match configured {
        Some(name) => if text::trim(name).len() > 0 {
            Some(text::trim(name))
        } else {
            None
        },
        None => None,
    }
}

pub open spec fn text_model(text: Option<&str>) -> Option<Seq<char>> {
    match text {
        Some(t) => Some(t@),
        None => None,
    }
}

fn trimmed_name(configured: Option<&str>) -> (name: Option<String>)
    ensures
        match name {
            Some(n) => configured_name(text_model(configured)) == Some(n@),
            None => configured_name(text_model(configured)) is None,
        },
{
    match configured {
        Some(name) => {
            let chars = chars_of(name);
            let trimmed = text::trim_chars(chars.as_slice());
            if trimmed.len() > 0 {
                Some(text::string_of(trimmed))
            } else {
                None
            }
        },
        None => None,
    }
}

/// Whether a microphone is configured, so that the helper has to be asked
/// what there is.
pub fn microphone_is_configured(configured: Option<&str>) -> (yes: bool)
    ensures
        yes == configured_name(text_model(configured)) is Some,
{
    trimmed_name(configured).is_some()
}

/// The microphone to use: the configured one where it is available under
/// exactly that name.
pub open spec fn selection(
    configured: Option<Seq<char>>,
    available: Seq<Seq<char>>,
) -> SelectionModel {
    match configured_name(configured) {
        Some(name) => if available.contains(name) {
            SelectionModel::Configured(name)
        } else {
            SelectionModel::ConfiguredMissing(name)
        },
        None => SelectionModel::Default,
    }
}

pub fn resolve_microphone_selection(
    configured: Option<&str>,
    available_names: &[String],
) -> (chosen: MicrophoneSelection)
    ensures
        chosen@ == selection(text_model(configured), text::texts(available_names@)),
{
    match trimmed_name(configured) {
        Some(name) => {
            let mut i: usize = 0;
            while i < available_names.len()
                invariant
                    i <= available_names.len(),
                    configured_name(text_model(configured)) == Some(name@),
                    forall|j: int| 0 <= j < i ==> (#[trigger] available_names@[j])@ != name@,
                decreases available_names.len() - i,
            {
                if same_text(available_names[i].as_str(), name.as_str()) {
                    proof {
                        assert(text::texts(available_names@)[i as int] == name@);
                    }
                    return MicrophoneSelection::Configured(name);
                }
                i += 1;
            }
            proof {
                let available = text::texts(available_names@);
                if available.contains(name@) {
                    let j = choose|j: int| 0 <= j < available.len() && available[j] == name@;
                    assert(available_names@[j]@ == name@);
                }
            }
            MicrophoneSelection::ConfiguredMissing(name)
        },
        None => MicrophoneSelection::Default,
    }
}

/// The microphone to use, given what the helper listed; where it could not
/// list anything, a configured microphone counts as missing.
pub fn select_microphone(
    configured: Option<&str>,
    inventory: Option<&[String]>,
) -> (chosen: MicrophoneSelection)
    ensures
        chosen@ == selection(
            text_model(configured),
            match inventory {
                Some(names) => text::texts(names@),
                None => Seq::empty(),
            },
        ),
{
    match inventory {
        Some(names) => resolve_microphone_selection(configured, names),
        None => match trimmed_name(configured) {
            Some(name) => MicrophoneSelection::ConfiguredMissing(name),
            None => MicrophoneSelection::Default,
        },
    }
}

pub open spec fn fallback_warning(name: Seq<char>) -> Seq<char> {
    "configured mic not found, using default: '"@ + name + "'."@
}

fn fallback_message(name: &str) -> (message: String)
    ensures
        message@ == fallback_warning(name@),
{
    joined("configured mic not found, using default: '", name).concat("'.")
}

/// What the user is told before the capture starts.
pub fn missing_microphone_warning(chosen: &MicrophoneSelection) -> (message: Option<String>)
    ensures
        match (chosen@, message) {
            (SelectionModel::ConfiguredMissing(name), Some(m)) => m@ == fallback_warning(name),
            (SelectionModel::ConfiguredMissing(_), None) => false,
            (_, m) => m is None,
        },
{
    match chosen {
        MicrophoneSelection::ConfiguredMissing(name) => Some(fallback_message(name.as_str())),
        _ => None,
    }
}

/// One argument of the helper. The output path is the system's to spell.
#[derive(Debug, Clone, PartialEq, Eq)]
pub enum HelperArg {
    OutputPath,
    Text(String),
}

pub enum ArgModel {
    OutputPath,
    Text(Seq<char>),
}

impl View for HelperArg {
    type V = ArgModel;

    open spec fn view(&self) -> ArgModel {
        match *self {
            HelperArg::OutputPath => ArgModel::OutputPath,
            HelperArg::Text(text) => ArgModel::Text(text@),
        }
    }
}

pub open spec fn helper_args(chosen: SelectionModel) -> Seq<ArgModel> {
    match chosen {
        SelectionModel::Configured(name) => seq![
            ArgModel::OutputPath,
            ArgModel::Text("--microphone-name"@),
            ArgModel::Text(name),
        ],
        _ => seq![ArgModel::OutputPath],
    }
}

pub open spec fn arg_models(args: Seq<HelperArg>) -> Seq<ArgModel> {
    args.map_values(|arg: HelperArg| arg@)
}

/// The helper's arguments: where to write, and the configured microphone.
pub fn native_call_helper_args(chosen: &MicrophoneSelection) -> (args: Vec<HelperArg>)
    ensures
        arg_models(args@) == helper_args(chosen@),
{
    let mut args: Vec<HelperArg> = Vec::new();
    args.push(HelperArg::OutputPath);
    if let MicrophoneSelection::Configured(name) = chosen {
        args.push(HelperArg::Text("--microphone-name".to_owned()));
        args.push(HelperArg::Text(name.clone()));
    }
    proof {
        assert(arg_models(args@) =~= helper_args(chosen@));
    }
    args
}

/// Whether the helper acknowledges its microphone after it is ready: only
/// where it was told which one to use.
pub fn microphone_status_expected(chosen: &MicrophoneSelection) -> (yes: bool)
    ensures
        yes == chosen@ is Configured,
{
    match chosen {
        MicrophoneSelection::Configured(_) => true,
        _ => false,
    }
}

/// The warnings with one more, unless it is among them.
pub open spec fn added_once(warnings: Seq<Seq<char>>, message: Seq<char>) -> Seq<Seq<char>> {
    if warnings.contains(message) {
        warnings
    } else {
        warnings.push(message)
    }
}

pub fn push_warning(warnings: &mut Vec<String>, message: String)
    ensures
        text::texts(final(warnings)@) == text::texts(old(warnings)@).push(message@),
{
    let ghost before = warnings@;
    warnings.push(message);
    proof {
        assert(text::texts(warnings@) =~= text::texts(before).push(message@));
    }
}

pub fn push_warning_once(warnings: &mut Vec<String>, message: String)
    ensures
        text::texts(final(warnings)@) == added_once(text::texts(old(warnings)@), message@),
{
    let mut i: usize = 0;
    while i < warnings.len()
        invariant
            i <= warnings.len(),
            warnings@ == old(warnings)@,
            forall|j: int| 0 <= j < i ==> (#[trigger] warnings@[j])@ != message@,
        decreases warnings.len() - i,
    {
        if same_text(warnings[i].as_str(), message.as_str()) {
            proof {
                assert(text::texts(warnings@)[i as int] == message@);
            }
            return ;
        }
        i += 1;
    }
    proof {
        let known = text::texts(warnings@);
        if known.contains(message@) {
            let j = choose|j: int| 0 <= j < known.len() && known[j] == message@;
            assert(warnings@[j]@ == message@);
        }
    }
    push_warning(warnings, message);
}

pub open spec fn unacknowledged_warning(error: Seq<char>) -> Seq<char> {
    "Configured microphone selection was not acknowledged before capture start ("@ + error
        + "); verify the selected input."@
}

/// The warnings after the second phase of the start: the status that came,
/// or the reason why none did.
pub open spec fn after_handshake(
    warnings: Seq<Seq<char>>,
    status_expected: bool,
    status: Result<StatusModel, Seq<char>>,
) -> Seq<Seq<char>> {
    if !status_expected {
        warnings
    } else {
        match status {
            Ok(StatusModel::Selected(_)) => warnings,
            Ok(StatusModel::Fallback(name)) => added_once(warnings, fallback_warning(name)),
            Err(error) => warnings.push(unacknowledged_warning(error)),
        }
    }
}

pub open spec fn status_model(status: Result<MicrophoneStartupStatus, String>) -> Result<
    StatusModel,
    Seq<char>,
> {
    match status {
        Ok(s) => Ok(s@),
        Err(error) => Err(error@),
    }
}

/// Takes the helper's word on its microphone before the capture counts as
/// started, so that a fallback is visible from the start.
pub fn finish_microphone_startup_handshake(
    status_expected: bool,
    status: Result<MicrophoneStartupStatus, String>,
    capture_warnings: &mut Vec<String>,
)
    ensures
        text::texts(final(capture_warnings)@) == after_handshake(
            text::texts(old(capture_warnings)@),
            status_expected,
            status_model(status),
        ),
{
    if !status_expected {
        return ;
    }
    match status {
        Ok(MicrophoneStartupStatus::Selected(_)) => {},
        Ok(MicrophoneStartupStatus::Fallback(name)) => {
            push_warning_once(capture_warnings, fallback_message(name.as_str()));
        },
        Err(error) => {
            let message = joined(
                "Configured microphone selection was not acknowledged before capture start (",
                error.as_str(),
            ).concat("); verify the selected input.");
            push_warning(capture_warnings, message);
        },
    }
}

/// A fallback is warned of however often it is reported, and once.
pub proof fn lemma_fallback_is_warned_of_once(warnings: Seq<Seq<char>>, name: Seq<char>)
    ensures
        ({
            let status = Ok::<StatusModel, Seq<char>>(StatusModel::Fallback(name));
            let once = after_handshake(warnings, true, status);
            &&& once.contains(fallback_warning(name))
            &&& after_handshake(once, true, status) == once
        }),
{
    let message = fallback_warning(name);
    if !warnings.contains(message) {
        assert(warnings.push(message)[warnings.len() as int] == message);
    }
}

/// A microphone that is there is used as configured, and nothing is warned of.
pub proof fn lemma_available_microphone_is_used(
    configured: Seq<char>,
    available: Seq<Seq<char>>,
)
    requires
        text::trim(configured).len() > 0,
        available.contains(text::trim(configured)),
    ensures
        selection(Some(configured), available) == SelectionModel::Configured(
            text::trim(configured),
        ),
{
}

/// A configured microphone that is not there is not selected in silence: it is
/// reported missing, by its name without the white space around it.
pub proof fn lemma_missing_microphone_is_reported(
    before: Seq<char>,
    name: Seq<char>,
    after: Seq<char>,
    available: Seq<Seq<char>>,
)
    requires
        text::all_white_space(before),
        text::all_white_space(after),
        name.len() > 0,
        !text::white_space(name[0]),
        !text::white_space(name.last()),
    ensures
        available.contains(name) ==> selection(Some(before + name + after), available)
            == SelectionModel::Configured(name),
        !available.contains(name) ==> selection(Some(before + name + after), available)
            == SelectionModel::ConfiguredMissing(name),
{
    text::lemma_trim_takes_what_is_around(before, name, after);
}

/// Where no microphone is configured, or only white space, the default one is
/// used.
pub proof fn lemma_no_configured_microphone(blank: Seq<char>, available: Seq<Seq<char>>)
    requires
        text::all_white_space(blank),
    ensures
        selection(Some(blank), available) == SelectionModel::Default,
        selection(None, available) == SelectionModel::Default,
{
    assert(blank + Seq::<char>::empty() =~= blank);
    text::lemma_trim_start(blank, Seq::empty());
}

/// The helper is handed the output first, and the name of a microphone only
/// where that microphone is there.
pub proof fn lemma_what_the_helper_is_handed(name: Seq<char>)
    ensures
        helper_args(SelectionModel::Configured(name)) == seq![
            ArgModel::OutputPath,
            ArgModel::Text("--microphone-name"@),
            ArgModel::Text(name),
        ],
        helper_args(SelectionModel::ConfiguredMissing(name)) == seq![ArgModel::OutputPath],
        helper_args(SelectionModel::Default) == seq![ArgModel::OutputPath],
{
}

/// A warning names what it is about.
pub proof fn lemma_warnings_name_the_microphone(name: Seq<char>, error: Seq<char>)
    ensures
        fallback_warning(name) == "configured mic not found, using default: '"@ + name + "'."@,
        text::occurs_in(name, fallback_warning(name)),
        unacknowledged_warning(error)
            == "Configured microphone selection was not acknowledged before capture start ("@
            + error + "); verify the selected input."@,
        text::occurs_in(error, unacknowledged_warning(error)),
{
    text::lemma_occurs("configured mic not found, using default: '"@, name, "'."@);
    text::lemma_occurs(
        "Configured microphone selection was not acknowledged before capture start ("@,
        error,
        "); verify the selected input."@,
    );
}

/// What the handshake adds: nothing where none is expected or the microphone
/// was selected, one warning where the helper fell back or did not answer.
pub proof fn lemma_what_the_handshake_adds(
    warnings: Seq<Seq<char>>,
    status: Result<StatusModel, Seq<char>>,
    name: Seq<char>,
    error: Seq<char>,
)
    ensures
        after_handshake(warnings, false, status) == warnings,
        after_handshake(warnings, true, Ok(StatusModel::Selected(name))) == warnings,
        after_handshake(warnings, true, Ok(StatusModel::Fallback(name))).contains(
            fallback_warning(name),
        ),
        warnings.contains(fallback_warning(name)) ==> after_handshake(
            warnings,
            true,
            Ok(StatusModel::Fallback(name)),
        ) == warnings,
        !warnings.contains(fallback_warning(name)) ==> after_handshake(
            warnings,
            true,
            Ok(StatusModel::Fallback(name)),
        ) == warnings.push(fallback_warning(name)),
        after_handshake(warnings, true, Err(error)) == warnings.push(
            unacknowledged_warning(error),
        ),
{
    let more = warnings.push(fallback_warning(name));
    assert(more[warnings.len() as int] == fallback_warning(name));
}

/// A selection is to be acknowledged within two seconds.
pub proof fn lemma_how_long_an_acknowledgement_takes()
    ensures
        MICROPHONE_STARTUP_STATUS_TIMEOUT_SECS == 2,
{
}

} // verus!
