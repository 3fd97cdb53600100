//! The lines that the native call helper prints: `ready` first, then one JSON
//! object to a line. What each of them changes in the state of a capture.

use crate::microphone;
use crate::microphone::{push_warning, push_warning_once, MicrophoneStartupStatus, StatusModel};
use crate::text;
use crate::text::{chars_of, joined, same_text};
use vstd::prelude::*;

verus! {

/// A member of a JSON object: its value as JSON text, and as a string, a
/// boolean or a count where it is one.
#[derive(Debug, Clone)]
pub struct JsonMember {
    pub name: String,
    pub json: String,
    pub text: Option<String>,
    pub flag: Option<bool>,
    pub count: Option<u64>,
}

/// The value of a member, with its texts as sequences of characters.
pub struct ValueModel {
    pub json: Seq<char>,
    pub text: Option<Seq<char>>,
    pub flag: Option<bool>,
    pub count: Option<u64>,
}

pub open spec fn value_model(member: JsonMember) -> ValueModel {
    ValueModel {
        json: member.json@,
        text: match member.text {
            Some(t) => Some(t@),
            None => None,
        },
        flag: member.flag,
        count: member.count,
    }
}

/// The values that a list of members gives to names.
pub open spec fn members_map(members: Seq<JsonMember>) -> Map<Seq<char>, ValueModel>
    decreases members.len(),
{
    if members.len() == 0 {
        Map::empty()
    } else {
        members_map(members.drop_last()).insert(members.last().name@, value_model(members.last()))
    }
}

/// What `serde_json::from_str` reads from a text: nothing where the text is
/// not JSON; otherwise the members of the object, and none for another value.
pub uninterp spec fn json_object(text: Seq<char>) -> Option<Map<Seq<char>, ValueModel>>;

/// `serde_json::from_str` into a `serde_json::Value`, taken apart. Claimed is
/// that what comes out depends on the text alone: `None` for a text that is
/// not JSON; otherwise the members of the object by name, each with what
/// `Value::to_string`, `as_str`, `as_bool` and `as_u64` make of its value, or
/// no members where the value is not an object. The order of the members is
/// not claimed.
#[verifier::external_body]
fn json_members(text: &str) -> (members: Option<Vec<JsonMember>>)
    ensures
        match members {
            Some(m) => json_object(text@) == Some(members_map(m@)),
            None => json_object(text@) is None,
        },
{
    let value: serde_json::Value = serde_json::from_str(text).ok()?;
    let object = value.as_object().cloned().unwrap_or_default();
    let members = object.iter().map(|(name, value)| JsonMember {
        name: name.clone(),
        json: value.to_string(),
        text: value.as_str().map(str::to_owned),
        flag: value.as_bool(),
        count: value.as_u64(),
    });
    Some(members.collect())
}

/// A message of the helper: the members of a JSON object.
#[derive(Debug, Clone)]
pub struct HelperMessage {
    pub members: Vec<JsonMember>,
}

impl View for HelperMessage {
    type V = Map<Seq<char>, ValueModel>;

    open spec fn view(&self) -> Map<Seq<char>, ValueModel> {
        members_map(self.members@)
    }
}

/// Reads a line as a message.
pub fn read_helper_message(line: &str) -> (message: Option<HelperMessage>)
    ensures
        match message {
            Some(m) => json_object(line@) == Some(m@),
            None => json_object(line@) is None,
        },
{
    match json_members(line) {
        Some(members) => Some(HelperMessage { members }),
        None => None,
    }
}

pub open spec fn member_text(message: Map<Seq<char>, ValueModel>, name: Seq<char>) -> Option<
    Seq<char>,
> {
    if message.dom().contains(name) {
        message[name].text
    } else {
        None
    }
}

/// The string under this name, or else `otherwise`.
pub open spec fn text_or(
    message: Map<Seq<char>, ValueModel>,
    name: Seq<char>,
    otherwise: Seq<char>,
) -> Seq<char> {
    match member_text(message, name) {
        Some(t) => t,
        None => otherwise,
    }
}

/// The boolean under this name; false if there is none.
pub open spec fn flag_or_false(message: Map<Seq<char>, ValueModel>, name: Seq<char>) -> bool {
    message.dom().contains(name) && message[name].flag == Some(true)
}

/// The count under this name; zero if there is none.
pub open spec fn count_or_zero(message: Map<Seq<char>, ValueModel>, name: Seq<char>) -> u64 {
    if message.dom().contains(name) {
        match message[name].count {
            Some(n) => n,
            None => 0,
        }
    } else {
        0
    }
}

/// The JSON text under this name, or `unknown`.
pub open spec fn json_or_unknown(message: Map<Seq<char>, ValueModel>, name: Seq<char>) -> Seq<char> {
    if message.dom().contains(name) {
        message[name].json
    } else {
        "unknown"@
    }
}

impl HelperMessage {
    fn find(&self, name: &str) -> (index: Option<usize>)
        ensures
            match index {
                Some(i) => i < self.members@.len() && self@.dom().contains(name@) && self@[name@]
                    == value_model(self.members@[i as int]),
                None => !self@.dom().contains(name@),
            },
    {
        let mut n: usize = self.members.len();
        let ghost all = self.members@;
        proof {
            assert(all.take(n as int) =~= all);
        }
        while n > 0
            invariant
                n <= self.members.len(),
                all == self.members@,
                self@.dom().contains(name@) == members_map(all.take(n as int)).dom().contains(
                    name@,
                ),
                members_map(all.take(n as int)).dom().contains(name@) ==> self@[name@]
                    == members_map(all.take(n as int))[name@],
            decreases n,
        {
            proof {
                assert(all.take(n as int).drop_last() =~= all.take(n - 1));
                assert(all.take(n as int).last() == all[n - 1]);
            }
            n -= 1;
            if same_text(self.members[n].name.as_str(), name) {
                return Some(n);
            }
        }
        None
    }

    pub fn text(&self, name: &str) -> (text: Option<String>)
        ensures
            match text {
                Some(t) => member_text(self@, name@) == Some(t@),
                None => member_text(self@, name@) is None,
            },
    {
        match self.find(name) {
            Some(i) => match &self.members[i].text {
                Some(t) => Some(t.clone()),
                None => None,
            },
            None => None,
        }
    }

    pub fn text_or(&self, name: &str, otherwise: &str) -> (text: String)
        ensures
            text@ == text_or(self@, name@, otherwise@),
    {
        match self.text(name) {
            Some(t) => t,
            None => otherwise.to_owned(),
        }
    }

    pub fn flag_or_false(&self, name: &str) -> (flag: bool)
        ensures
            flag == flag_or_false(self@, name@),
    {
        match self.find(name) {
            Some(i) => match self.members[i].flag {
                Some(flag) => flag,
                None => false,
            },
            None => false,
        }
    }

    pub fn count_or_zero(&self, name: &str) -> (count: u64)
        ensures
            count == count_or_zero(self@, name@),
    {
        match self.find(name) {
            Some(i) => match self.members[i].count {
                Some(n) => n,
                None => 0,
            },
            None => 0,
        }
    }

    pub fn json_or_unknown(&self, name: &str) -> (json: String)
        ensures
            json@ == json_or_unknown(self@, name@),
    {
        match self.find(name) {
            Some(i) => self.members[i].json.clone(),
            None => "unknown".to_owned(),
        }
    }
}

/// The warning for a stream whose layout could not be decoded.
pub open spec fn unsupported_format_warning(message: Map<Seq<char>, ValueModel>) -> Seq<char> {
    "Native call capture silenced undecodable "@ + text_or(
        message,
        "source"@,
        "unknown source"@,
    ) + " audio (ASBD: sample_rate="@ + json_or_unknown(message, "sample_rate"@) + ", format_id="@
        + json_or_unknown(message, "format_id"@) + ", format_flags="@ + json_or_unknown(
        message,
        "format_flags"@,
    ) + ", bits_per_channel="@ + json_or_unknown(message, "bits_per_channel"@)
        + ", bytes_per_packet="@ + json_or_unknown(message, "bytes_per_packet"@)
        + ", bytes_per_frame="@ + json_or_unknown(message, "bytes_per_frame"@)
        + ", frames_per_packet="@ + json_or_unknown(message, "frames_per_packet"@)
        + ", channels="@ + json_or_unknown(message, "channels"@) + ")."@
}

pub fn capture_warning_for_audio_format_unsupported(message: &HelperMessage) -> (warning: String)
    ensures
        warning@ == unsupported_format_warning(message@),
{
    joined(
        "Native call capture silenced undecodable ",
        message.text_or("source", "unknown source").as_str(),
    ).concat(" audio (ASBD: sample_rate=").concat(
        message.json_or_unknown("sample_rate").as_str(),
    ).concat(", format_id=").concat(message.json_or_unknown("format_id").as_str()).concat(
        ", format_flags=",
    ).concat(message.json_or_unknown("format_flags").as_str()).concat(
        ", bits_per_channel=",
    ).concat(message.json_or_unknown("bits_per_channel").as_str()).concat(
        ", bytes_per_packet=",
    ).concat(message.json_or_unknown("bytes_per_packet").as_str()).concat(
        ", bytes_per_frame=",
    ).concat(message.json_or_unknown("bytes_per_frame").as_str()).concat(
        ", frames_per_packet=",
    ).concat(message.json_or_unknown("frames_per_packet").as_str()).concat(", channels=").concat(
        message.json_or_unknown("channels").as_str(),
    ).concat(").")
}

/// What each source of a capture was last heard to do.
#[derive(Debug, Clone, PartialEq, Eq)]
pub struct CallSourceHealth {
    pub backend: String,
    pub mic_live: bool,
    pub call_audio_live: bool,
    pub mic_level: u32,
    pub call_audio_level: u32,
    pub mic_frames_silenced: u64,
    pub system_frames_silenced: u64,
    pub last_update: String,
}

pub struct HealthModel {
    pub backend: Seq<char>,
    pub mic_live: bool,
    pub call_audio_live: bool,
    pub mic_level: u32,
    pub call_audio_level: u32,
    pub mic_frames_silenced: u64,
    pub system_frames_silenced: u64,
    pub last_update: Seq<char>,
}

impl View for CallSourceHealth {
    type V = HealthModel;

    open spec fn view(&self) -> HealthModel {
        HealthModel {
            backend: self.backend@,
            mic_live: self.mic_live,
            call_audio_live: self.call_audio_live,
            mic_level: self.mic_level,
            call_audio_level: self.call_audio_level,
            mic_frames_silenced: self.mic_frames_silenced,
            system_frames_silenced: self.system_frames_silenced,
            last_update: self.last_update@,
        }
    }
}

/// The health of a capture that nothing has been heard from.
pub open spec fn silent_health(timestamp: Seq<char>) -> HealthModel {
    HealthModel {
        backend: "screencapturekit-helper"@,
        mic_live: false,
        call_audio_live: false,
        mic_level: 0,
        call_audio_level: 0,
        mic_frames_silenced: 0,
        system_frames_silenced: 0,
        last_update: timestamp,
    }
}

impl CallSourceHealth {
    pub fn copy(&self) -> (health: CallSourceHealth)
        ensures
            health@ == self@,
    {
        CallSourceHealth {
            backend: self.backend.clone(),
            mic_live: self.mic_live,
            call_audio_live: self.call_audio_live,
            mic_level: self.mic_level,
            call_audio_level: self.call_audio_level,
            mic_frames_silenced: self.mic_frames_silenced,
            system_frames_silenced: self.system_frames_silenced,
            last_update: self.last_update.clone(),
        }
    }

    pub fn silent(timestamp: &str) -> (health: CallSourceHealth)
        ensures
            health@ == silent_health(timestamp@),
    {
        CallSourceHealth {
            backend: "screencapturekit-helper".to_owned(),
            mic_live: false,
            call_audio_live: false,
            mic_level: 0,
            call_audio_level: 0,
            mic_frames_silenced: 0,
            system_frames_silenced: 0,
            last_update: timestamp.to_owned(),
        }
    }
}

/// The lowest 32 bits of a count.
pub open spec fn low_bits(n: u64) -> u32 {
    (n % 0x1_0000_0000) as u32
}

fn low_bits_of(n: u64) -> (low: u32)
    ensures
        low == low_bits(n),
{
    (n % 0x1_0000_0000) as u32
}

/// The health that a message reports. What it leaves out counts as silent.
pub open spec fn reported_health(
    health: HealthModel,
    message: Map<Seq<char>, ValueModel>,
    timestamp: Seq<char>,
) -> HealthModel {
    HealthModel {
        backend: health.backend,
        mic_live: flag_or_false(message, "mic_live"@),
        call_audio_live: flag_or_false(message, "call_audio_live"@),
        mic_level: low_bits(count_or_zero(message, "mic_level"@)),
        call_audio_level: low_bits(count_or_zero(message, "call_audio_level"@)),
        mic_frames_silenced: count_or_zero(message, "mic_frames_silenced"@),
        system_frames_silenced: count_or_zero(message, "system_frames_silenced"@),
        last_update: timestamp,
    }
}

/// Paths to per-source audio stems written by the native call helper.
#[derive(Debug, Clone, PartialEq, Eq)]
pub struct StemPaths {
    pub voice: String,
    pub system: String,
}

pub open spec fn stems_model(stems: Option<StemPaths>) -> Option<(Seq<char>, Seq<char>)> {
    match stems {
        Some(s) => Some((s.voice@, s.system@)),
        None => None,
    }
}

/// A running capture, as far as the lines of its helper tell. The helper
/// process and the file that it writes belong to the program around this.
#[derive(Debug, Clone)]
pub struct NativeCallCaptureSession {
    pub health: CallSourceHealth,
    pub stem_paths: Option<StemPaths>,
    /// The moment of the last line. A stop uses it to tell a helper that is
    /// working through its finalize from one that hangs: a long capture takes
    /// longer to finalize than any fixed wait that is worth having.
    pub last_progress: u64,
    pub capture_warnings: Vec<String>,
    pub ready_sent: bool,
}

#[verifier::ext_equal]
pub struct CaptureModel {
    pub health: HealthModel,
    pub stems: Option<(Seq<char>, Seq<char>)>,
    pub last_progress: u64,
    pub warnings: Seq<Seq<char>>,
    pub ready_sent: bool,
}

impl View for NativeCallCaptureSession {
    type V = CaptureModel;

    open spec fn view(&self) -> CaptureModel {
        CaptureModel {
            health: self.health@,
            stems: stems_model(self.stem_paths),
            last_progress: self.last_progress,
            warnings: text::texts(self.capture_warnings@),
            ready_sent: self.ready_sent,
        }
    }
}

pub open spec fn disconnected_warning(name: Seq<char>) -> Seq<char> {
    "Configured microphone '"@ + name
        + "' disconnected during capture; ScreenCaptureKit continued with its default behavior."@
}

/// The capture after a message.
pub open spec fn after_message(
    capture: CaptureModel,
    message: Map<Seq<char>, ValueModel>,
    timestamp: Seq<char>,
) -> CaptureModel {
    match member_text(message, "event"@) {
        None => capture,
        Some(event) => if event == "health"@ {
            CaptureModel {
                health: reported_health(capture.health, message, timestamp),
                ..capture
            }
        } else if event == "stems"@ {
            let voice = text_or(message, "voice_stem"@, Seq::empty());
            let system = text_or(message, "system_stem"@, Seq::empty());
            if voice.len() > 0 && system.len() > 0 {
                CaptureModel { stems: Some((voice, system)), ..capture }
            } else {
                capture
            }
        } else if event == "microphone_disconnected"@ {
            CaptureModel {
                warnings: capture.warnings.push(
                    disconnected_warning(
                        text_or(message, "name"@, "configured microphone"@),
                    ),
                ),
                ..capture
            }
        } else if event == "audio_format_unsupported"@ {
            CaptureModel {
                warnings: microphone::added_once(
                    capture.warnings,
                    unsupported_format_warning(message),
                ),
                ..capture
            }
        } else {
            capture
        },
    }
}

/// What a message says of the microphone that the capture started with.
pub open spec fn microphone_status(message: Map<Seq<char>, ValueModel>) -> Option<StatusModel> {
    match member_text(message, "event"@) {
        None => None,
        Some(event) => if event == "microphone_selected"@ {
            match member_text(message, "name"@) {
                Some(name) => Some(StatusModel::Selected(name)),
                None => None,
            }
        } else if event == "microphone_fallback"@ {
            Some(StatusModel::Fallback(text_or(message, "name"@, "configured microphone"@)))
        } else {
            None
        },
    }
}

pub open spec fn maybe_status(status: Option<MicrophoneStartupStatus>) -> Option<StatusModel> {
    match status {
        Some(s) => Some(s@),
        None => None,
    }
}

/// What a line of the helper is.
#[derive(Debug)]
pub enum HelperLine {
    Blank,
    /// The first line: it says whether the helper is ready.
    Readiness(String),
    /// A message, with what it says of the microphone.
    Message(Option<MicrophoneStartupStatus>),
}

pub enum LineModel {
    Blank,
    Readiness(Seq<char>),
    Message(Option<StatusModel>),
}

impl View for HelperLine {
    type V = LineModel;

    open spec fn view(&self) -> LineModel {
        match *self {
            HelperLine::Blank => LineModel::Blank,
            HelperLine::Readiness(line) => LineModel::Readiness(line@),
            HelperLine::Message(status) => LineModel::Message(maybe_status(status)),
        }
    }
}

/// What a line is, given what JSON reads from it.
pub open spec fn line_meaning(
    capture: CaptureModel,
    line: Seq<char>,
    message: Option<Map<Seq<char>, ValueModel>>,
) -> LineModel {
    if text::trim(line).len() == 0 {
        LineModel::Blank
    } else if !capture.ready_sent {
        LineModel::Readiness(text::trim(line))
    } else {
        LineModel::Message(
            match message {
                Some(m) => microphone_status(m),
                None => None,
            },
        )
    }
}

/// The capture after a line, given what JSON reads from it. Any line is a
/// sign of life; a blank one is nothing more.
pub open spec fn after_line(
    capture: CaptureModel,
    line: Seq<char>,
    message: Option<Map<Seq<char>, ValueModel>>,
    now: u64,
    timestamp: Seq<char>,
) -> CaptureModel {
    let alive = CaptureModel { last_progress: now, ..capture };
    if text::trim(line).len() == 0 {
        alive
    } else if !capture.ready_sent {
        CaptureModel { ready_sent: true, ..alive }
    } else {
        match message {
            Some(m) => after_message(alive, m, timestamp),
            None => alive,
        }
    }
}

impl NativeCallCaptureSession {
    /// A capture that has just been started, with what there is to warn of.
    pub fn new(capture_warnings: Vec<String>, now: u64, timestamp: &str) -> (
        capture: NativeCallCaptureSession)
        ensures
            capture@ == (CaptureModel {
                health: silent_health(timestamp@),
                stems: None,
                last_progress: now,
                warnings: text::texts(capture_warnings@),
                ready_sent: false,
            }),
    {
        NativeCallCaptureSession {
            health: CallSourceHealth::silent(timestamp),
            stem_paths: None,
            last_progress: now,
            capture_warnings,
            ready_sent: false,
        }
    }

    /// Takes a message; tells what it says of the microphone.
    pub fn on_message(&mut self, message: &HelperMessage, timestamp: &str) -> (status: Option<
        MicrophoneStartupStatus,
    >)
        ensures
            final(self)@ == after_message(old(self)@, message@, timestamp@),
            maybe_status(status) == microphone_status(message@),
    {
        let event = match message.text("event") {
            Some(event) => event,
            None => {
                return None;
            },
        };
        if same_text(event.as_str(), "health") {
            self.health.mic_live = message.flag_or_false("mic_live");
            self.health.call_audio_live = message.flag_or_false("call_audio_live");
            self.health.mic_level = low_bits_of(message.count_or_zero("mic_level"));
            self.health.call_audio_level = low_bits_of(message.count_or_zero("call_audio_level"));
            self.health.mic_frames_silenced = message.count_or_zero("mic_frames_silenced");
            self.health.system_frames_silenced = message.count_or_zero("system_frames_silenced");
            self.health.last_update = timestamp.to_owned();
            proof {
                lemma_events_differ();
            }
            return None;
        }
        if same_text(event.as_str(), "stems") {
            let voice = message.text_or("voice_stem", "");
            let system = message.text_or("system_stem", "");
            proof {
                reveal_strlit("");
                assert(""@ =~= Seq::<char>::empty());
                lemma_events_differ();
            }
            if !voice.as_str().is_empty() && !system.as_str().is_empty() {
                self.stem_paths = Some(StemPaths { voice, system });
            }
            return None;
        }
        if same_text(event.as_str(), "microphone_disconnected") {
            let name = message.text_or("name", "configured microphone");
            let warning = joined("Configured microphone '", name.as_str()).concat(
                "' disconnected during capture; ScreenCaptureKit continued with its default behavior.",
            );
            push_warning(&mut self.capture_warnings, warning);
            proof {
                lemma_events_differ();
            }
            return None;
        }
        if same_text(event.as_str(), "audio_format_unsupported") {
            let warning = capture_warning_for_audio_format_unsupported(message);
            push_warning_once(&mut self.capture_warnings, warning);
            proof {
                lemma_events_differ();
            }
            return None;
        }
        if same_text(event.as_str(), "microphone_selected") {
            return match message.text("name") {
                Some(name) => Some(MicrophoneStartupStatus::Selected(name)),
                None => None,
            };
        }
        if same_text(event.as_str(), "microphone_fallback") {
            proof {
                lemma_events_differ();
            }
            return Some(
                MicrophoneStartupStatus::Fallback(
                    message.text_or("name", "configured microphone"),
                ),
            );
        }
        None
    }

    /// Takes a line that came at `now`.
    pub fn on_line(&mut self, line: &str, now: u64, timestamp: &str) -> (meaning: HelperLine)
        ensures
            meaning@ == line_meaning(old(self)@, line@, json_object(text::trim(line@))),
            final(self)@ == after_line(
                old(self)@,
                line@,
                json_object(text::trim(line@)),
                now,
                timestamp@,
            ),
    {
        self.last_progress = now;
        let chars = chars_of(line);
        let trimmed = text::trim_chars(chars.as_slice());
        if trimmed.len() == 0 {
            return HelperLine::Blank;
        }
        let content = text::string_of(trimmed);
        if !self.ready_sent {
            self.ready_sent = true;
            return HelperLine::Readiness(content);
        }
        match read_helper_message(content.as_str()) {
            Some(message) => HelperLine::Message(self.on_message(&message, timestamp)),
            None => HelperLine::Message(None),
        }
    }
}

/// The names of the events are different texts.
proof fn lemma_events_differ()
    ensures
        "health"@ != "microphone_selected"@,
        "health"@ != "microphone_fallback"@,
        "stems"@ != "microphone_selected"@,
        "stems"@ != "microphone_fallback"@,
        "microphone_disconnected"@ != "microphone_selected"@,
        "microphone_disconnected"@ != "microphone_fallback"@,
        "audio_format_unsupported"@ != "microphone_selected"@,
        "audio_format_unsupported"@ != "microphone_fallback"@,
        "microphone_selected"@ != "microphone_fallback"@,
{
    reveal_strlit("health");
    reveal_strlit("stems");
    reveal_strlit("microphone_disconnected");
    reveal_strlit("audio_format_unsupported");
    reveal_strlit("microphone_selected");
    reveal_strlit("microphone_fallback");
    assert("microphone_selected"@[11] != "microphone_fallback"@[11]);
    assert("microphone_selected"@.len() == "microphone_fallback"@.len());
}

/// A capture counts as alive from its last line on, whatever that says, and
/// even where it is no message at all.
pub proof fn lemma_every_line_is_a_sign_of_life(
    capture: CaptureModel,
    line: Seq<char>,
    message: Option<Map<Seq<char>, ValueModel>>,
    now: u64,
    timestamp: Seq<char>,
)
    ensures
        after_line(capture, line, message, now, timestamp).last_progress == now,
{
}

/// Warnings are kept: no line takes one back.
pub proof fn lemma_warnings_are_kept(
    capture: CaptureModel,
    line: Seq<char>,
    message: Option<Map<Seq<char>, ValueModel>>,
    now: u64,
    timestamp: Seq<char>,
)
    ensures
        capture.warnings.is_prefix_of(
            after_line(capture, line, message, now, timestamp).warnings,
        ),
{
}

/// An unsupported layout is warned of once, however often it is reported.
pub proof fn lemma_unsupported_format_is_warned_of_once(
    capture: CaptureModel,
    message: Map<Seq<char>, ValueModel>,
    timestamp: Seq<char>,
)
    requires
        member_text(message, "event"@) == Some("audio_format_unsupported"@),
    ensures
        ({
            let once = after_message(capture, message, timestamp);
            &&& once.warnings.contains(unsupported_format_warning(message))
            &&& after_message(once, message, timestamp) == once
        }),
{
    let warning = unsupported_format_warning(message);
    reveal_strlit("health");
    reveal_strlit("stems");
    reveal_strlit("microphone_disconnected");
    reveal_strlit("audio_format_unsupported");
    assert("audio_format_unsupported"@.len() == 24 && "microphone_disconnected"@.len() == 23
        && "health"@.len() == 6 && "stems"@.len() == 5);
    let once = after_message(capture, message, timestamp);
    assert(once.warnings == microphone::added_once(capture.warnings, warning));
    if !capture.warnings.contains(warning) {
        assert(capture.warnings.push(warning)[capture.warnings.len() as int] == warning);
    }
}

proof fn lemma_handled_events_differ()
    ensures
        "health"@ != "stems"@,
        "health"@ != "microphone_disconnected"@,
        "health"@ != "audio_format_unsupported"@,
        "stems"@ != "microphone_disconnected"@,
        "stems"@ != "audio_format_unsupported"@,
        "microphone_disconnected"@ != "audio_format_unsupported"@,
{
    reveal_strlit("health");
    reveal_strlit("stems");
    reveal_strlit("microphone_disconnected");
    reveal_strlit("audio_format_unsupported");
    assert("audio_format_unsupported"@.len() == 24 && "microphone_disconnected"@.len() == 23
        && "health"@.len() == 6 && "stems"@.len() == 5);
}

/// Whether the message holds this flag under this name.
pub open spec fn says(
    message: Map<Seq<char>, ValueModel>,
    name: Seq<char>,
    flag: bool,
) -> bool {
    message.dom().contains(name) && message[name].flag == Some(flag)
}

/// Whether the message holds this count under this name.
pub open spec fn counts(message: Map<Seq<char>, ValueModel>, name: Seq<char>, n: u64) -> bool {
    message.dom().contains(name) && message[name].count == Some(n)
}

/// Whether the message is of this event.
pub open spec fn is_event(message: Map<Seq<char>, ValueModel>, event: Seq<char>) -> bool {
    message.dom().contains("event"@) && message["event"@].text == Some(event)
}

/// A report of health is believed member by member: what it holds under each
/// name is what the health says after it, and what it does not hold is off or
/// zero. The backend stays, the time is that of the report, and nothing else
/// of the capture changes.
pub proof fn lemma_health_is_what_was_reported(
    capture: CaptureModel,
    message: Map<Seq<char>, ValueModel>,
    timestamp: Seq<char>,
    flag: bool,
    n: u64,
)
    requires
        is_event(message, "health"@),
    ensures
        ({
            let after = after_message(capture, message, timestamp);
            &&& says(message, "mic_live"@, flag) ==> after.health.mic_live == flag
            &&& says(message, "call_audio_live"@, flag) ==> after.health.call_audio_live == flag
            &&& counts(message, "mic_level"@, n) && n <= u32::MAX ==> after.health.mic_level == n
            &&& counts(message, "call_audio_level"@, n) && n <= u32::MAX
                ==> after.health.call_audio_level == n
            &&& counts(message, "mic_frames_silenced"@, n) ==> after.health.mic_frames_silenced == n
            &&& counts(message, "system_frames_silenced"@, n)
                ==> after.health.system_frames_silenced == n
            &&& !message.dom().contains("mic_live"@) ==> !after.health.mic_live
            &&& !message.dom().contains("call_audio_live"@) ==> !after.health.call_audio_live
            &&& !message.dom().contains("mic_level"@) ==> after.health.mic_level == 0
            &&& !message.dom().contains("call_audio_level"@) ==> after.health.call_audio_level == 0
            &&& !message.dom().contains("mic_frames_silenced"@)
                ==> after.health.mic_frames_silenced == 0
            &&& !message.dom().contains("system_frames_silenced"@)
                ==> after.health.system_frames_silenced == 0
            &&& after.health.backend == capture.health.backend
            &&& after.health.last_update == timestamp
            &&& after == (CaptureModel { health: after.health, ..capture })
        }),
{
}

/// The two stems are kept where both are named; a report that lacks one, or
/// names it with nothing, changes nothing.
pub proof fn lemma_stems_are_kept_in_pairs(
    capture: CaptureModel,
    message: Map<Seq<char>, ValueModel>,
    timestamp: Seq<char>,
    voice: Seq<char>,
    system: Seq<char>,
)
    requires
        is_event(message, "stems"@),
    ensures
        ({
            let after = after_message(capture, message, timestamp);
            let has_voice = message.dom().contains("voice_stem"@) && message["voice_stem"@].text
                == Some(voice);
            let has_system = message.dom().contains("system_stem"@) && message["system_stem"@].text
                == Some(system);
            &&& has_voice && has_system && voice.len() > 0 && system.len() > 0 ==> after == (
            CaptureModel { stems: Some((voice, system)), ..capture })
            &&& !message.dom().contains("voice_stem"@) ==> after == capture
            &&& !message.dom().contains("system_stem"@) ==> after == capture
            &&& has_voice && voice.len() == 0 ==> after == capture
            &&& has_system && system.len() == 0 ==> after == capture
        }),
{
    lemma_handled_events_differ();
}

/// A microphone that goes away is warned of, by its name where it has one,
/// each time; nothing else changes.
pub proof fn lemma_disconnected_microphone_is_named(
    capture: CaptureModel,
    message: Map<Seq<char>, ValueModel>,
    timestamp: Seq<char>,
    name: Seq<char>,
)
    requires
        is_event(message, "microphone_disconnected"@),
    ensures
        ({
            let after = after_message(capture, message, timestamp);
            &&& after.warnings.len() == capture.warnings.len() + 1
            &&& after.warnings.drop_last() == capture.warnings
            &&& message.dom().contains("name"@) && message["name"@].text == Some(name)
                ==> after.warnings.last() == "Configured microphone '"@ + name
                + "' disconnected during capture; ScreenCaptureKit continued with its default behavior."@
            &&& !message.dom().contains("name"@) ==> after.warnings.last()
                == "Configured microphone '"@ + "configured microphone"@
                + "' disconnected during capture; ScreenCaptureKit continued with its default behavior."@
            &&& after == (CaptureModel { warnings: after.warnings, ..capture })
        }),
{
    lemma_handled_events_differ();
    let after = after_message(capture, message, timestamp);
    let told = text_or(message, "name"@, "configured microphone"@);
    assert(after.warnings =~= capture.warnings.push(disconnected_warning(told)));
    assert(after.warnings.drop_last() =~= capture.warnings);
}

/// A layout that cannot be decoded is described member by member, by what the
/// message holds under each name and as unknown where it holds nothing.
pub proof fn lemma_unsupported_format_is_described(message: Map<Seq<char>, ValueModel>)
    ensures
        ({
            let told = |name: Seq<char>|
                if message.dom().contains(name) {
                    message[name].json
                } else {
                    "unknown"@
                };
            let source = if message.dom().contains("source"@) && message["source"@].text is Some {
                message["source"@].text->0
            } else {
                "unknown source"@
            };
            unsupported_format_warning(message) == "Native call capture silenced undecodable "@
                + source + " audio (ASBD: sample_rate="@ + told("sample_rate"@) + ", format_id="@
                + told("format_id"@) + ", format_flags="@ + told("format_flags"@)
                + ", bits_per_channel="@ + told("bits_per_channel"@) + ", bytes_per_packet="@
                + told("bytes_per_packet"@) + ", bytes_per_frame="@ + told("bytes_per_frame"@)
                + ", frames_per_packet="@ + told("frames_per_packet"@) + ", channels="@
                + told("channels"@) + ")."@
        }),
{
}

/// A message without an event, or of one that is not known, changes nothing.
pub proof fn lemma_other_messages_change_nothing(
    capture: CaptureModel,
    message: Map<Seq<char>, ValueModel>,
    timestamp: Seq<char>,
    event: Seq<char>,
)
    requires
        event != "health"@,
        event != "stems"@,
        event != "microphone_disconnected"@,
        event != "audio_format_unsupported"@,
    ensures
        is_event(message, event) ==> after_message(capture, message, timestamp) == capture,
        !message.dom().contains("event"@) ==> after_message(capture, message, timestamp) == capture,
{
}

/// What a message says of the microphone: which one was selected, or which
/// one could not be had; of any other message, nothing.
pub proof fn lemma_what_is_said_of_the_microphone(
    message: Map<Seq<char>, ValueModel>,
    event: Seq<char>,
    name: Seq<char>,
)
    requires
        is_event(message, event),
    ensures
        ({
            let named = message.dom().contains("name"@) && message["name"@].text == Some(name);
            let status = microphone_status(message);
            &&& event == "microphone_selected"@ && named ==> status == Some(
                StatusModel::Selected(name),
            )
            &&& event == "microphone_selected"@ && !message.dom().contains("name"@) ==> status
                is None
            &&& event == "microphone_fallback"@ && named ==> status == Some(
                StatusModel::Fallback(name),
            )
            &&& event == "microphone_fallback"@ && !message.dom().contains("name"@) ==> status
                == Some(StatusModel::Fallback("configured microphone"@))
            &&& event != "microphone_selected"@ && event != "microphone_fallback"@ ==> status is None
        }),
{
    lemma_events_differ();
}

/// The first line that is not blank says whether the helper is ready, without
/// the white space around it, and is no message; lines after it are.
pub proof fn lemma_first_line_is_readiness(
    capture: CaptureModel,
    line: Seq<char>,
    message: Map<Seq<char>, ValueModel>,
    now: u64,
    timestamp: Seq<char>,
)
    requires
        text::trim(line).len() > 0,
    ensures
        ({
            let after = after_line(capture, line, Some(message), now, timestamp);
            let silent = after_line(capture, line, None, now, timestamp);
            &&& !capture.ready_sent ==> line_meaning(capture, line, Some(message))
                == LineModel::Readiness(text::trim(line)) && after == (CaptureModel {
                ready_sent: true,
                last_progress: now,
                ..capture
            })
            &&& capture.ready_sent ==> line_meaning(capture, line, Some(message))
                == LineModel::Message(microphone_status(message)) && after == after_message(
                CaptureModel { last_progress: now, ..capture },
                message,
                timestamp,
            )
            &&& capture.ready_sent ==> silent == (CaptureModel { last_progress: now, ..capture })
                && line_meaning(capture, line, None) == LineModel::Message(None)
        }),
{
}

/// A blank line says nothing, before readiness and after.
pub proof fn lemma_blank_line_says_nothing(
    capture: CaptureModel,
    line: Seq<char>,
    message: Option<Map<Seq<char>, ValueModel>>,
    now: u64,
    timestamp: Seq<char>,
)
    requires
        text::all_white_space(line),
    ensures
        line_meaning(capture, line, message) == LineModel::Blank,
        after_line(capture, line, message, now, timestamp) == (CaptureModel {
            last_progress: now,
            ..capture
        }),
{
    assert(line + Seq::<char>::empty() =~= line);
    text::lemma_trim_start(line, Seq::empty());
}

/// Of two members of one name the later counts.
pub proof fn lemma_later_member_counts(
    members: Seq<JsonMember>,
    member: JsonMember,
    other: Seq<char>,
)
    ensures
        members_map(members.push(member)).dom().contains(member.name@),
        members_map(members.push(member))[member.name@] == value_model(member),
        other != member.name@ ==> members_map(members.push(member)).dom().contains(other)
            == members_map(members).dom().contains(other) && members_map(
            members.push(member),
        )[other] == members_map(members)[other],
        !members_map(Seq::empty()).dom().contains(other),
{
    assert(members.push(member).drop_last() =~= members);
}

/// A capture that has not been heard of yet is silent.
pub proof fn lemma_silent_health(timestamp: Seq<char>)
    ensures
        ({
            let health = silent_health(timestamp);
            &&& !health.mic_live && !health.call_audio_live
            &&& health.mic_level == 0 && health.call_audio_level == 0
            &&& health.mic_frames_silenced == 0 && health.system_frames_silenced == 0
            &&& health.last_update == timestamp
            &&& health.backend == "screencapturekit-helper"@
        }),
{
}

} // verus!
