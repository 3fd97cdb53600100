//! What the overlays that prompt for a meeting are to show.
//!
//! Each overlay is given a token in its address and drains exactly its own
//! entry, so that of two prompts in a row the first cannot consume what was
//! staged for the second.

use crate::calendar::CalendarEvent;
use crate::text;
use crate::text::{decimal_text, joined};
use vstd::prelude::*;

verus! {

/// How many entries wait to be drained; an overlay that never comes up must
/// not keep its entry for ever.
pub const MAX_PENDING: usize = 16;

/// What an overlay shows.
#[derive(Debug, Clone, PartialEq, Eq)]
pub struct MeetingPromptData {
    pub title: String,
    pub minutes_until: i64,
    pub url: Option<String>,
}

pub struct PromptModel {
    pub title: Seq<char>,
    pub minutes_until: i64,
    pub url: Option<Seq<char>>,
}

impl View for MeetingPromptData {
    type V = PromptModel;

    open spec fn view(&self) -> PromptModel {
        PromptModel {
            title: self.title@,
            minutes_until: self.minutes_until,
            url: match self.url {
                Some(u) => Some(u@),
                None => None,
            },
        }
    }
}

/// What an overlay shows of an event; an empty address is none.
pub open spec fn prompt_for(event: crate::calendar::EventModel) -> PromptModel {
    PromptModel {
        title: event.title,
        minutes_until: event.minutes_until,
        url: match event.url {
            Some(u) => if u.len() > 0 {
                Some(u)
            } else {
                None
            },
            None => None,
        },
    }
}

pub fn prompt_data(event: &CalendarEvent) -> (data: MeetingPromptData)
    ensures
        data@ == prompt_for(event@),
{
    MeetingPromptData {
        title: event.title.clone(),
        minutes_until: event.minutes_until,
        url: match &event.url {
            Some(u) => if u.as_str().is_empty() {
                None
            } else {
                Some(u.clone())
            },
            None => None,
        },
    }
}

/// The entries that wait, by token.
#[derive(Debug)]
pub struct PendingPrompts {
    next_token: u64,
    entries: Vec<(u64, MeetingPromptData)>,
}

spec fn unique_tokens(entries: Seq<(u64, MeetingPromptData)>) -> bool {
    forall|i: int, j: int|
        0 <= i < j < entries.len() ==> (#[trigger] entries[i]).0 != (#[trigger] entries[j]).0
}

spec fn entry_map(entries: Seq<(u64, MeetingPromptData)>) -> Map<u64, PromptModel>
    decreases entries.len(),
{
    if entries.len() == 0 {
        Map::empty()
    } else {
        entry_map(entries.drop_last()).insert(entries.last().0, entries.last().1@)
    }
}

proof fn lemma_map_holds(entries: Seq<(u64, MeetingPromptData)>, token: u64)
    ensures
        entry_map(entries).dom().finite(),
        entry_map(entries).dom().contains(token) <==> exists|i: int|
            0 <= i < entries.len() && (#[trigger] entries[i]).0 == token,
        unique_tokens(entries) ==> entry_map(entries).len() == entries.len(),
    decreases entries.len(),
{
    if entries.len() > 0 {
        let earlier = entries.drop_last();
        let last = entries.last();
        lemma_map_holds(earlier, token);
        lemma_map_holds(earlier, last.0);
        if unique_tokens(entries) {
            assert(unique_tokens(earlier)) by {
                assert forall|i: int, j: int| 0 <= i < j < earlier.len() implies (
                #[trigger] earlier[i]).0 != (#[trigger] earlier[j]).0 by {
                    assert(entries[i].0 != entries[j].0);
                }
            }
            if entry_map(earlier).dom().contains(last.0) {
                let i = choose|i: int| 0 <= i < earlier.len() && (#[trigger] earlier[i]).0 == last.0;
                assert(entries[i].0 != entries[entries.len() - 1].0);
            }
        }
        if entry_map(entries).dom().contains(token) && token != last.0 {
            let i = choose|i: int| 0 <= i < earlier.len() && (#[trigger] earlier[i]).0 == token;
            assert(entries[i].0 == token);
        }
        if token == last.0 {
            assert(entries[entries.len() - 1].0 == token);
        }
        if exists|i: int| 0 <= i < entries.len() && (#[trigger] entries[i]).0 == token {
            let i = choose|i: int| 0 <= i < entries.len() && (#[trigger] entries[i]).0 == token;
            if i < earlier.len() {
                assert(earlier[i].0 == token);
            }
        }
    }
}

proof fn lemma_map_entry(entries: Seq<(u64, MeetingPromptData)>, i: int)
    requires
        unique_tokens(entries),
        0 <= i < entries.len(),
    ensures
        entry_map(entries).dom().contains(entries[i].0),
        entry_map(entries)[entries[i].0] == entries[i].1@,
    decreases entries.len(),
{
    let earlier = entries.drop_last();
    if i < earlier.len() {
        assert(unique_tokens(earlier)) by {
            assert forall|a: int, b: int| 0 <= a < b < earlier.len() implies (
            #[trigger] earlier[a]).0 != (#[trigger] earlier[b]).0 by {
                assert(entries[a].0 != entries[b].0);
            }
        }
        lemma_map_entry(earlier, i);
        assert(entries[i].0 != entries[entries.len() - 1].0);
    }
}

proof fn lemma_map_remove(entries: Seq<(u64, MeetingPromptData)>, at: int)
    requires
        unique_tokens(entries),
        0 <= at < entries.len(),
    ensures
        unique_tokens(entries.remove(at)),
        entry_map(entries.remove(at)) == entry_map(entries).remove(entries[at].0),
{
    let after = entries.remove(at);
    let token = entries[at].0;
    assert forall|k: int| 0 <= k < after.len() implies #[trigger] after[k] == entries[if k < at {
        k
    } else {
        k + 1
    }] by {}
    assert(unique_tokens(after)) by {
        assert forall|i: int, j: int| 0 <= i < j < after.len() implies (#[trigger] after[i]).0 != (
        #[trigger] after[j]).0 by {
            let a = if i < at {
                i
            } else {
                i + 1
            };
            let b = if j < at {
                j
            } else {
                j + 1
            };
            assert(entries[a].0 != entries[b].0);
        }
    }
    assert forall|t: u64| #[trigger]
        entry_map(after).dom().contains(t) == entry_map(entries).remove(token).dom().contains(t) by {
        lemma_map_holds(after, t);
        lemma_map_holds(entries, t);
        if entry_map(after).dom().contains(t) {
            let k = choose|k: int| 0 <= k < after.len() && (#[trigger] after[k]).0 == t;
            let m = if k < at {
                k
            } else {
                k + 1
            };
            assert(entries[m].0 == t);
            if m < at {
                assert(entries[m].0 != entries[at].0);
            } else {
                assert(entries[at].0 != entries[m].0);
            }
        }
        if entry_map(entries).remove(token).dom().contains(t) {
            let m = choose|m: int| 0 <= m < entries.len() && (#[trigger] entries[m]).0 == t;
            let k = if m < at {
                m
            } else {
                m - 1
            };
            assert(after[k].0 == t);
        }
    }
    assert forall|t: u64| entry_map(after).dom().contains(t) implies entry_map(after)[t]
        == entry_map(entries)[t] by {
        lemma_map_holds(after, t);
        let k = choose|k: int| 0 <= k < after.len() && (#[trigger] after[k]).0 == t;
        let m = if k < at {
            k
        } else {
            k + 1
        };
        lemma_map_entry(after, k);
        lemma_map_entry(entries, m);
    }
    assert(entry_map(after) =~= entry_map(entries).remove(token));
}

impl View for PendingPrompts {
    type V = Map<u64, PromptModel>;

    closed spec fn view(&self) -> Map<u64, PromptModel> {
        entry_map(self.entries@)
    }
}

/// The smallest token of the map.
pub open spec fn oldest(pending: Map<u64, PromptModel>, token: u64) -> bool {
    pending.dom().contains(token) && forall|other: u64|
        pending.dom().contains(other) ==> token <= other
}

/// The entries after one was staged: a full map first lets its oldest go.
pub open spec fn staged(
    before: Map<u64, PromptModel>,
    token: u64,
    prompt: PromptModel,
    after: Map<u64, PromptModel>,
) -> bool {
    if before.len() < MAX_PENDING {
        after == before.insert(token, prompt)
    } else {
        exists|gone: u64| #[trigger]
            oldest(before, gone) && after == before.remove(gone).insert(token, prompt)
    }
}

impl PendingPrompts {
    #[verifier::type_invariant]
    spec fn well_formed(self) -> bool {
        unique_tokens(self.entries@) && self.entries@.len() <= MAX_PENDING
    }

    /// The token that the next entry is staged under.
    pub closed spec fn token_to_come(&self) -> u64 {
        self.next_token
    }

    pub fn new() -> (pending: PendingPrompts)
        ensures
            pending@ == Map::<u64, PromptModel>::empty(),
            pending.token_to_come() == 0,
    {
        PendingPrompts { next_token: 0, entries: Vec::new() }
    }

    pub fn len(&self) -> (n: usize)
        ensures
            n == self@.len(),
            n <= MAX_PENDING,
    {
        proof {
            use_type_invariant(self);
            lemma_map_holds(self.entries@, 0);
        }
        self.entries.len()
    }

    fn find(&self, token: u64) -> (index: Option<usize>)
        ensures
            match index {
                Some(i) => i < self.entries@.len() && self.entries@[i as int].0 == token,
                None => !self@.dom().contains(token),
            },
    {
        let mut i: usize = 0;
        while i < self.entries.len()
            invariant
                i <= self.entries.len(),
                forall|j: int| 0 <= j < i ==> (#[trigger] self.entries@[j]).0 != token,
            decreases self.entries.len() - i,
        {
            if self.entries[i].0 == token {
                return Some(i);
            }
            i += 1;
        }
        proof {
            lemma_map_holds(self.entries@, token);
        }
        None
    }

    /// Drains the entry that was staged under this token.
    pub fn take(&mut self, token: u64) -> (data: Option<MeetingPromptData>)
        ensures
            match data {
                Some(d) => old(self)@.dom().contains(token) && d@ == old(self)@[token],
                None => !old(self)@.dom().contains(token),
            },
            final(self)@ == old(self)@.remove(token),
            final(self).token_to_come() == old(self).token_to_come(),
    {
        proof {
            use_type_invariant(&*self);
        }
        match self.find(token) {
            Some(i) => {
                let mut entries: Vec<(u64, MeetingPromptData)> = Vec::new();
                std::mem::swap(&mut entries, &mut self.entries);
                proof {
                    lemma_map_remove(entries@, i as int);
                    lemma_map_entry(entries@, i as int);
                }
                let (_, data) = entries.remove(i);
                self.entries = entries;
                Some(data)
            },
            None => {
                proof {
                    assert(self@.remove(token) =~= self@);
                }
                None
            },
        }
    }

    fn position_of_oldest(&self) -> (at: usize)
        requires
            self.entries@.len() > 0,
        ensures
            at < self.entries@.len(),
            oldest(self@, self.entries@[at as int].0),
    {
        let mut at: usize = 0;
        let mut i: usize = 1;
        while i < self.entries.len()
            invariant
                at < i <= self.entries.len(),
                forall|j: int|
                    0 <= j < i ==> self.entries@[at as int].0 <= (#[trigger] self.entries@[j]).0,
            decreases self.entries.len() - i,
        {
            if self.entries[i].0 < self.entries[at].0 {
                at = i;
            }
            i += 1;
        }
        proof {
            let token = self.entries@[at as int].0;
            lemma_map_holds(self.entries@, token);
            assert forall|other: u64| self@.dom().contains(other) implies token <= other by {
                lemma_map_holds(self.entries@, other);
                let j = choose|j: int|
                    0 <= j < self.entries@.len() && (#[trigger] self.entries@[j]).0 == other;
                assert(token <= self.entries@[j].0);
            }
        }
        at
    }

    /// Stages an entry under a token of its own, which is given back.
    pub fn stage(&mut self, data: MeetingPromptData) -> (token: u64)
        ensures
            token == old(self).token_to_come(),
            final(self).token_to_come() == (if token == u64::MAX {
                0
            } else {
                token + 1
            }),
            staged(old(self)@, token, data@, final(self)@),
    {
        proof {
            use_type_invariant(&*self);
            lemma_map_holds(self.entries@, 0);
        }
        let token: u64 = self.next_token;
        let ghost before = self@;
        self.next_token = if token == u64::MAX {
            0
        } else {
            token + 1
        };
        if self.entries.len() >= MAX_PENDING {
            let at: usize = self.position_of_oldest();
            let gone: u64 = self.entries[at].0;
            proof {
                assert(oldest(before, gone));
            }
            let _ = self.take(gone);
        }
        let ghost kept = self@;
        let _ = self.take(token);
        proof {
            use_type_invariant(&*self);
        }
        let mut entries: Vec<(u64, MeetingPromptData)> = Vec::new();
        std::mem::swap(&mut entries, &mut self.entries);
        proof {
            assert(kept.remove(token).insert(token, data@) =~= kept.insert(token, data@));
            lemma_map_holds(entries@, token);
            let after = entries@.push((token, data));
            assert(after.drop_last() =~= entries@);
            assert(unique_tokens(after)) by {
                assert forall|i: int, j: int| 0 <= i < j < after.len() implies (
                #[trigger] after[i]).0 != (#[trigger] after[j]).0 by {
                    if j == entries@.len() {
                        assert(entries@[i].0 == after[i].0);
                    } else {
                        assert(entries@[i].0 != entries@[j].0);
                    }
                }
            }
        }
        entries.push((token, data));
        proof {
            assert(entries@.len() <= MAX_PENDING) by {
                lemma_map_holds(entries@, 0);
            }
        }
        self.entries = entries;
        token
    }
}

impl PendingPrompts {
    /// Stages the prompt for an event, unless a recording is on: then nobody
    /// is asked.
    pub fn stage_for(&mut self, event: &CalendarEvent, recording: bool) -> (token: Option<u64>)
        ensures
            recording ==> {
                &&& token is None
                &&& final(self)@ == old(self)@
                &&& final(self).token_to_come() == old(self).token_to_come()
            },
            !recording ==> {
                &&& token == Some(old(self).token_to_come())
                &&& final(self).token_to_come() == (if old(self).token_to_come() == u64::MAX {
                    0
                } else {
                    old(self).token_to_come() + 1
                })
                &&& staged(
                    old(self)@,
                    old(self).token_to_come(),
                    prompt_for(event@),
                    final(self)@,
                )
            },
    {
        if recording {
            return None;
        }
        Some(self.stage(prompt_data(event)))
    }
}

/// What was staged last is there, and drained it is gone; no more than the
/// cap wait.
pub proof fn lemma_newest_prompt_is_kept(
    before: Map<u64, PromptModel>,
    token: u64,
    prompt: PromptModel,
    after: Map<u64, PromptModel>,
)
    requires
        before.dom().finite(),
        before.len() <= MAX_PENDING,
        staged(before, token, prompt, after),
    ensures
        after.dom().contains(token),
        after[token] == prompt,
        after.len() <= MAX_PENDING,
        !after.remove(token).dom().contains(token),
{
}

/// The address of the overlay that drains this token. A bare number has no
/// characters that need encoding.
pub fn prompt_url(token: u64) -> (url: String)
    ensures
        url@ == "meeting-prompt.html?t="@ + text::decimal(token as nat),
{
    joined("meeting-prompt.html?t=", decimal_text(token).as_str())
}

/// A prompt says what the calendar does; an empty address is none.
pub proof fn lemma_prompt_says_what_the_calendar_does(
    title: Seq<char>,
    minutes_until: i64,
    url: Seq<char>,
)
    ensures
        url.len() > 0 ==> prompt_for(
            crate::calendar::EventModel { title, minutes_until, url: Some(url) },
        ) == (PromptModel { title, minutes_until, url: Some(url) }),
        url.len() == 0 ==> prompt_for(
            crate::calendar::EventModel { title, minutes_until, url: Some(url) },
        ) == (PromptModel { title, minutes_until, url: None }),
        prompt_for(crate::calendar::EventModel { title, minutes_until, url: None }) == (
        PromptModel { title, minutes_until, url: None }),
{
}

/// Staging a prompt keeps the others as they are while there are fewer than
/// sixteen; from then on the oldest goes, and no other.
pub proof fn lemma_only_the_oldest_prompt_goes(
    before: Map<u64, PromptModel>,
    token: u64,
    prompt: PromptModel,
    after: Map<u64, PromptModel>,
    other: u64,
)
    requires
        staged(before, token, prompt, after),
        other != token,
        before.dom().contains(other),
    ensures
        before.len() < 16 ==> after.dom().contains(other),
        after.dom().contains(other) ==> after[other] == before[other],
        before.len() >= 16 ==> (after.dom().contains(other) <==> exists|older: u64|
            before.dom().contains(older) && older < other),
{
    if before.len() >= 16 {
        let gone = choose|gone: u64| #[trigger]
            oldest(before, gone) && after == before.remove(gone).insert(token, prompt);
        assert(oldest(before, gone));
        if after.dom().contains(other) {
            assert(before.dom().contains(gone) && gone < other);
        }
    }
}

/// Staging a prompt brings none but that one.
pub proof fn lemma_no_prompt_comes_of_itself(
    before: Map<u64, PromptModel>,
    token: u64,
    prompt: PromptModel,
    after: Map<u64, PromptModel>,
    other: u64,
)
    requires
        staged(before, token, prompt, after),
        other != token,
        !before.dom().contains(other),
    ensures
        !after.dom().contains(other),
        after.dom().contains(token),
        after[token] == prompt,
{
}

/// The oldest prompt is the one with the smallest token.
pub proof fn lemma_oldest_has_the_smallest_token(
    pending: Map<u64, PromptModel>,
    token: u64,
    newer: u64,
    prompt: PromptModel,
)
    requires
        oldest(pending, token),
        newer > token,
    ensures
        oldest(pending.insert(newer, prompt), token),
        !oldest(pending.insert(newer, prompt), newer),
        oldest(Map::empty().insert(newer, prompt), newer),
{
    let more = pending.insert(newer, prompt);
    assert(more.dom().contains(token));
}

} // verus!
