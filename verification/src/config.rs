//! The settings of call detection.

use crate::text;
use crate::text::same_text;
use vstd::prelude::*;

verus! {

/// The settings that the call detector is run by.
#[derive(Debug)]
pub struct CallDetectionConfig {
    pub enabled: bool,
    /// Seconds between two polls; zero counts as one.
    pub poll_interval_secs: u64,
    pub cooldown_minutes: u64,
    /// The call applications to watch for, in order of preference, with the
    /// sentinels `google-meet` and `teams-web` for meetings in a browser tab.
    pub apps: Vec<String>,
    /// Offer to stop a recording when its call is over.
    pub stop_when_call_ends: bool,
    /// How long that offer stands before the recording stops by itself.
    pub call_end_stop_countdown_secs: u64,
    /// Take any application that holds the microphone for a call.
    pub any_mic_app: bool,
    pub prompt_card: bool,
    pub ignored_apps: Vec<String>,
}

/// The settings with their texts as sequences of characters.
#[verifier::ext_equal]
pub struct ConfigModel {
    pub enabled: bool,
    pub poll_interval_secs: u64,
    pub cooldown_minutes: u64,
    pub apps: Seq<Seq<char>>,
    pub stop_when_call_ends: bool,
    pub call_end_stop_countdown_secs: u64,
    pub any_mic_app: bool,
    pub prompt_card: bool,
    pub ignored_apps: Seq<Seq<char>>,
}

impl View for CallDetectionConfig {
    type V = ConfigModel;

    open spec fn view(&self) -> ConfigModel {
        ConfigModel {
            enabled: self.enabled,
            poll_interval_secs: self.poll_interval_secs,
            cooldown_minutes: self.cooldown_minutes,
            apps: text::texts(self.apps@),
            stop_when_call_ends: self.stop_when_call_ends,
            call_end_stop_countdown_secs: self.call_end_stop_countdown_secs,
            any_mic_app: self.any_mic_app,
            prompt_card: self.prompt_card,
            ignored_apps: text::texts(self.ignored_apps@),
        }
    }
}

impl Clone for CallDetectionConfig {
    fn clone(&self) -> (copy: Self)
        ensures
            copy@ == self@,
    {
        let copy = CallDetectionConfig {
            enabled: self.enabled,
            poll_interval_secs: self.poll_interval_secs,
            cooldown_minutes: self.cooldown_minutes,
            apps: text::copies(self.apps.as_slice()),
            stop_when_call_ends: self.stop_when_call_ends,
            call_end_stop_countdown_secs: self.call_end_stop_countdown_secs,
            any_mic_app: self.any_mic_app,
            prompt_card: self.prompt_card,
            ignored_apps: text::copies(self.ignored_apps.as_slice()),
        };
        copy
    }
}

/// Whether the settings name this application or sentinel.
pub open spec fn lists(config: ConfigModel, app: Seq<char>) -> bool {
    config.apps.contains(app)
}

impl CallDetectionConfig {
    pub fn lists_app(&self, app: &str) -> (yes: bool)
        ensures
            yes == lists(self@, app@),
    {
        let mut i: usize = 0;
        while i < self.apps.len()
            invariant
                i <= self.apps.len(),
                forall|j: int| 0 <= j < i ==> (#[trigger] self.apps@[j])@ != app@,
            decreases self.apps.len() - i,
        {
            if same_text(self.apps[i].as_str(), app) {
                proof {
                    assert(self@.apps[i as int] == app@);
                }
                return true;
            }
            i += 1;
        }
        proof {
            if lists(self@, app@) {
                let j = choose|j: int| 0 <= j < self@.apps.len() && self@.apps[j] == app@;
                assert(self.apps@[j]@ == app@);
            }
        }
        false
    }
}

/// Seconds between two polls.
pub open spec fn poll_interval(config: ConfigModel) -> u64 {
    if config.poll_interval_secs == 0 {
        1
    } else {
        config.poll_interval_secs
    }
}

impl CallDetectionConfig {
    pub fn poll_interval(&self) -> (secs: u64)
        ensures
            secs == poll_interval(self@),
    {
        if self.poll_interval_secs == 0 {
            1
        } else {
            self.poll_interval_secs
        }
    }
}

/// Polls are as far apart as configured, and a second at least.
pub proof fn lemma_polls_are_apart(config: ConfigModel)
    ensures
        poll_interval(config) >= 1,
        config.poll_interval_secs >= 1 ==> poll_interval(config) == config.poll_interval_secs,
        config.poll_interval_secs == 0 ==> poll_interval(config) == 1,
{
}

} // verus!
