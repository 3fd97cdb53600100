//! Upcoming meetings in the tray: how they are labelled, which of them are
//! prompted for and shown, and how often a calendar that hangs is asked again.

use crate::text;
use crate::text::{decimal_text, joined, same_text};
use vstd::prelude::*;

verus! {

/// How many meetings the tray shows.
pub const MAX_CALENDAR_ITEMS: usize = 3;

pub const CALENDAR_REFRESH_SECS: u64 = 60;

/// How far ahead the calendar is read: four hours.
pub const CALENDAR_LOOKAHEAD_MINUTES: u32 = 240;

/// A prompt is shown this many minutes before a meeting.
pub const MEETING_NOTIFY_MINUTES: i64 = 3;

/// For this many minutes after its start a meeting counts as known.
pub const MEETING_FORGET_MINUTES: i64 = 5;

/// An event of the calendar.
#[derive(Debug, Clone, PartialEq, Eq)]
pub struct CalendarEvent {
    pub title: String,
    pub minutes_until: i64,
    pub url: Option<String>,
}

pub struct EventModel {
    pub title: Seq<char>,
    pub minutes_until: i64,
    pub url: Option<Seq<char>>,
}

impl View for CalendarEvent {
    type V = EventModel;

    open spec fn view(&self) -> EventModel {
        EventModel {
            title: self.title@,
            minutes_until: self.minutes_until,
            url: match self.url {
                Some(u) => Some(u@),
                None => None,
            },
        }
    }
}

pub open spec fn event_models(events: Seq<CalendarEvent>) -> Seq<EventModel> {
    events.map_values(|e: CalendarEvent| e@)
}

/// How long it is until a meeting, in words.
pub open spec fn waiting_time(minutes_until: i64) -> Seq<char> {
    if minutes_until <= 0 {
        " · now"@
    } else if minutes_until == 1 {
        " · in 1 min"@
    } else if minutes_until < 60 {
        " · in "@ + text::decimal(minutes_until as nat) + " min"@
    } else if minutes_until % 60 == 0 {
        " · in "@ + text::decimal((minutes_until / 60) as nat) + "h"@
    } else {
        " · in "@ + text::decimal((minutes_until / 60) as nat) + "h "@ + text::decimal(
            (minutes_until % 60) as nat,
        ) + "m"@
    }
}

pub open spec fn calendar_label(event: EventModel) -> Seq<char> {
    event.title + waiting_time(event.minutes_until)
}

pub fn format_calendar_label(event: &CalendarEvent) -> (label: String)
    ensures
        label@ == calendar_label(event@),
{
    let title = event.title.as_str();
    if event.minutes_until <= 0 {
        return joined(title, " · now");
    }
    let minutes: u64 = event.minutes_until as u64;
    let waiting = if minutes == 1 {
        " · in 1 min".to_owned()
    } else if minutes >= 60 {
        let hours = joined(" · in ", decimal_text(minutes / 60).as_str());
        if minutes % 60 == 0 {
            hours.concat("h")
        } else {
            hours.concat("h ").concat(decimal_text(minutes % 60).as_str()).concat("m")
        }
    } else {
        joined(" · in ", decimal_text(minutes).as_str()).concat(" min")
    };
    joined(title, waiting.as_str())
}

/// The titles of the meetings that were prompted for.
#[derive(Debug)]
pub struct NotifiedTitles {
    titles: Vec<String>,
}

impl View for NotifiedTitles {
    type V = Set<Seq<char>>;

    closed spec fn view(&self) -> Set<Seq<char>> {
        text::texts(self.titles@).to_set()
    }
}

impl NotifiedTitles {
    pub fn new() -> (notified: NotifiedTitles)
        ensures
            notified@ == Set::<Seq<char>>::empty(),
    {
        let notified = NotifiedTitles { titles: Vec::new() };
        proof {
            assert(notified@ =~= Set::<Seq<char>>::empty());
        }
        notified
    }

    pub fn contains(&self, title: &str) -> (yes: bool)
        ensures
            yes == self@.contains(title@),
    {
        let mut i: usize = 0;
        while i < self.titles.len()
            invariant
                i <= self.titles.len(),
                forall|j: int| 0 <= j < i ==> (#[trigger] self.titles@[j])@ != title@,
            decreases self.titles.len() - i,
        {
            if same_text(self.titles[i].as_str(), title) {
                proof {
                    assert(text::texts(self.titles@)[i as int] == title@);
                }
                return true;
            }
            i += 1;
        }
        proof {
            let known = text::texts(self.titles@);
            if known.contains(title@) {
                let j = choose|j: int| 0 <= j < known.len() && known[j] == title@;
                assert(self.titles@[j]@ == title@);
            }
        }
        false
    }

    pub fn insert(&mut self, title: &str)
        ensures
            final(self)@ == old(self)@.insert(title@),
    {
        let ghost before = text::texts(self.titles@);
        self.titles.push(title.to_owned());
        proof {
            let after = text::texts(self.titles@);
            assert(after =~= before.push(title@));
            assert forall|t: Seq<char>| #[trigger]
                after.to_set().contains(t) == before.to_set().insert(title@).contains(t) by {
                if before.contains(t) {
                    let j = choose|j: int| 0 <= j < before.len() && before[j] == t;
                    assert(after[j] == t);
                }
                if t == title@ {
                    assert(after[before.len() as int] == t);
                }
            }
            assert(self@ =~= old(self)@.insert(title@));
        }
    }

    /// Keeps the titles of the meetings that are still to come or have only
    /// just begun.
    pub fn retain_current(&mut self, events: &[CalendarEvent])
        ensures
            final(self)@ == old(self)@.filter(
                |title: Seq<char>| current(event_models(events@), title),
            ),
    {
        let mut kept: Vec<String> = Vec::new();
        let ghost all = text::texts(self.titles@);
        let mut i: usize = 0;
        while i < self.titles.len()
            invariant
                i <= self.titles.len(),
                self.titles@ == old(self).titles@,
                all == text::texts(self.titles@),
                forall|t: Seq<char>| #[trigger]
                    text::texts(kept@).contains(t) == (current(event_models(events@), t)
                        && all.take(i as int).contains(t)),
            decreases self.titles.len() - i,
        {
            let ghost before = text::texts(kept@);
            let title = self.titles[i].as_str();
            proof {
                assert(all[i as int] == title@);
                let longer = all.take(i + 1);
                let shorter = all.take(i as int);
                assert forall|t: Seq<char>| #[trigger]
                    longer.contains(t) == (shorter.contains(t) || t == title@) by {
                    if shorter.contains(t) {
                        let j = choose|j: int| 0 <= j < shorter.len() && shorter[j] == t;
                        assert(longer[j] == t);
                    }
                    if t == title@ {
                        assert(longer[i as int] == t);
                    }
                    if longer.contains(t) && t != title@ {
                        let j = choose|j: int| 0 <= j < longer.len() && longer[j] == t;
                        assert(shorter[j] == t);
                    }
                }
            }
            if is_current(events, title) {
                kept.push(title.to_owned());
                proof {
                    assert(text::texts(kept@) =~= before.push(title@));
                    assert forall|t: Seq<char>| #[trigger]
                        text::texts(kept@).contains(t) == (before.contains(t) || t == title@) by {
                        if before.contains(t) {
                            let j = choose|j: int| 0 <= j < before.len() && before[j] == t;
                            assert(text::texts(kept@)[j] == t);
                        }
                        if t == title@ {
                            assert(text::texts(kept@)[before.len() as int] == t);
                        }
                    }
                }
            }
            i += 1;
        }
        proof {
            assert(all.take(i as int) =~= all);
        }
        self.titles = kept;
        proof {
            assert(self@ =~= old(self)@.filter(
                |title: Seq<char>| current(event_models(events@), title),
            ));
        }
    }
}

/// Some event of this title is still to come or has only just begun.
pub open spec fn current(events: Seq<EventModel>, title: Seq<char>) -> bool {
    exists|i: int|
        0 <= i < events.len() && (#[trigger] events[i]).title == title && events[i].minutes_until
            >= -MEETING_FORGET_MINUTES
}

fn is_current(events: &[CalendarEvent], title: &str) -> (yes: bool)
    ensures
        yes == current(event_models(events@), title@),
{
    let mut i: usize = 0;
    while i < events.len()
        invariant
            i <= events.len(),
            forall|j: int|
                0 <= j < i ==> !((#[trigger] event_models(events@)[j]).title == title@
                    && event_models(events@)[j].minutes_until >= -MEETING_FORGET_MINUTES),
        decreases events.len() - i,
    {
        proof {
            assert(event_models(events@)[i as int] == events@[i as int]@);
        }
        if same_text(events[i].title.as_str(), title) && events[i].minutes_until
            >= -MEETING_FORGET_MINUTES {
            return true;
        }
        i += 1;
    }
    false
}

/// A meeting that is about to begin.
pub open spec fn about_to_begin(event: EventModel) -> bool {
    0 <= event.minutes_until <= MEETING_NOTIFY_MINUTES
}

/// Whether the event at `i` is prompted for: it is about to begin, was not
/// prompted for before, and no event before it in the list has its title and
/// is prompted for.
pub open spec fn prompted(events: Seq<EventModel>, notified: Set<Seq<char>>, i: int) -> bool {
    &&& about_to_begin(events[i])
    &&& !notified.contains(events[i].title)
    &&& forall|j: int|
        0 <= j < i && about_to_begin(#[trigger] events[j]) ==> events[j].title != events[i].title
}

/// The titles known after the prompts for the first `n` events.
pub open spec fn notified_after(
    events: Seq<EventModel>,
    notified: Set<Seq<char>>,
    n: int,
) -> Set<Seq<char>>
    decreases n,
{
    if n <= 0 {
        notified
    } else if about_to_begin(events[n - 1]) {
        notified_after(events, notified, n - 1).insert(events[n - 1].title)
    } else {
        notified_after(events, notified, n - 1)
    }
}

proof fn lemma_notified_after(
    events: Seq<EventModel>,
    notified: Set<Seq<char>>,
    n: int,
    title: Seq<char>,
)
    requires
        0 <= n <= events.len(),
    ensures
        notified_after(events, notified, n).contains(title) <==> notified.contains(title) || exists|
            j: int,
        |
            0 <= j < n && about_to_begin(#[trigger] events[j]) && events[j].title == title,
    decreases n,
{
    if n > 0 {
        lemma_notified_after(events, notified, n - 1, title);
    }
}

/// The labels of the first events, at most `room` of them, that have not begun.
pub open spec fn shown_labels(events: Seq<EventModel>, room: nat) -> Seq<Seq<char>>
    decreases events.len(),
{
    if events.len() == 0 || room == 0 {
        Seq::empty()
    } else if events[0].minutes_until >= 0 {
        seq![calendar_label(events[0])] + shown_labels(events.drop_first(), (room - 1) as nat)
    } else {
        shown_labels(events.drop_first(), room)
    }
}

/// What a refresh of the calendar changes in the tray.
#[derive(Debug)]
pub struct CalendarPlan {
    /// Nothing can be read: a menu that shows no meetings would be a lie, so
    /// it says that access is limited.
    pub access_warning: bool,
    /// The places in the list of the events to prompt for, in its order.
    pub prompts: Vec<usize>,
    /// The labels of the meetings to show, in order.
    pub labels: Vec<String>,
    /// Whether a separator follows the meetings.
    pub separator: bool,
}

/// Where the first meeting stands in the tray menu: behind the item that
/// opens the application, and its separator.
pub const CALENDAR_MENU_POSITION: usize = 2;

/// Decides what a refresh changes, given the events and whether the calendar
/// may be read.
pub fn refresh_calendar_items(
    notified: &mut NotifiedTitles,
    events: &[CalendarEvent],
    can_read: bool,
) -> (plan: CalendarPlan)
    ensures
        plan.access_warning == (events@.len() == 0 && !can_read),
        forall|i: int, j: int|
            0 <= i < j < plan.prompts@.len() ==> plan.prompts@[i] < plan.prompts@[j],
        forall|i: int|
            0 <= i < events@.len() ==> (prompted(event_models(events@), old(notified)@, i)
                <==> #[trigger] plan.prompts@.contains(i as usize)),
        forall|k: int|
            0 <= k < plan.prompts@.len() ==> #[trigger] plan.prompts@[k] < events@.len(),
        text::texts(plan.labels@) == shown_labels(
            event_models(events@),
            MAX_CALENDAR_ITEMS as nat,
        ),
        plan.separator == (plan.labels@.len() > 0),
        final(notified)@ == notified_after(
            event_models(events@),
            old(notified)@,
            events@.len() as int,
        ).filter(|title: Seq<char>| current(event_models(events@), title)),
{
    let access_warning = events.len() == 0 && !can_read;
    let prompts = take_prompts(notified, events);
    notified.retain_current(events);
    let labels = labels_to_show(events);
    let separator = labels.len() > 0;
    CalendarPlan { access_warning, prompts, labels, separator }
}

fn take_prompts(notified: &mut NotifiedTitles, events: &[CalendarEvent]) -> (prompts: Vec<usize>)
    ensures
        forall|i: int, j: int| 0 <= i < j < prompts@.len() ==> prompts@[i] < prompts@[j],
        forall|i: int|
            0 <= i < events@.len() ==> (prompted(event_models(events@), old(notified)@, i)
                <==> #[trigger] prompts@.contains(i as usize)),
        forall|k: int| 0 <= k < prompts@.len() ==> #[trigger] prompts@[k] < events@.len(),
        final(notified)@ == notified_after(
            event_models(events@),
            old(notified)@,
            events@.len() as int,
        ),
{
    let ghost models = event_models(events@);
    let ghost known = notified@;
    let mut prompts: Vec<usize> = Vec::new();
    let mut i: usize = 0;
    while i < events.len()
        invariant
            i <= events.len(),
            models == event_models(events@),
            known == old(notified)@,
            notified@ == notified_after(models, known, i as int),
            forall|k: int| 0 <= k < prompts@.len() ==> #[trigger] prompts@[k] < i,
            forall|a: int, b: int| 0 <= a < b < prompts@.len() ==> prompts@[a] < prompts@[b],
            forall|k: int|
                0 <= k < i ==> (prompted(models, known, k) <==> #[trigger] prompts@.contains(
                    k as usize,
                )),
        decreases events.len() - i,
    {
        let ghost before = prompts@;
        proof {
            assert(models[i as int] == events@[i as int]@);
            lemma_notified_after(models, known, i as int, models[i as int].title);
        }
        if events[i].minutes_until >= 0 && events[i].minutes_until <= MEETING_NOTIFY_MINUTES {
            if !notified.contains(events[i].title.as_str()) {
                prompts.push(i);
                notified.insert(events[i].title.as_str());
                proof {
                    assert(prompted(models, known, i as int));
                    assert(prompts@[before.len() as int] == i);
                }
            } else {
                proof {
                    assert(!prompted(models, known, i as int));
                    assert(notified@.insert(models[i as int].title) =~= notified@);
                }
            }
        }
        proof {
            assert forall|k: int| 0 <= k < i + 1 implies (prompted(models, known, k)
                <==> #[trigger] prompts@.contains(k as usize)) by {
                if k < i {
                    assert(prompted(models, known, k) <==> before.contains(k as usize));
                    if before.contains(k as usize) {
                        let p = choose|p: int| 0 <= p < before.len() && before[p] == k as usize;
                        assert(prompts@[p] == k as usize);
                    }
                    if prompts@.contains(k as usize) {
                        let p = choose|p: int| 0 <= p < prompts@.len() && prompts@[p] == k as usize;
                        if p < before.len() {
                            assert(before[p] == k as usize);
                        }
                    }
                } else {
                    if before.contains(k as usize) {
                        let p = choose|p: int| 0 <= p < before.len() && before[p] == k as usize;
                        assert(before[p] < i);
                    }
                }
            }
        }
        i += 1;
    }
    prompts
}

fn labels_to_show(events: &[CalendarEvent]) -> (labels: Vec<String>)
    ensures
        text::texts(labels@) == shown_labels(event_models(events@), MAX_CALENDAR_ITEMS as nat),
{
    let ghost models = event_models(events@);
    let mut labels: Vec<String> = Vec::new();
    let mut i: usize = 0;
    proof {
        assert(models.skip(0) =~= models);
        assert(text::texts(labels@) + shown_labels(models.skip(0), 3) =~= shown_labels(models, 3));
    }
    while i < events.len() && labels.len() < MAX_CALENDAR_ITEMS
        invariant
            i <= events.len(),
            models == event_models(events@),
            labels@.len() <= MAX_CALENDAR_ITEMS,
            text::texts(labels@) + shown_labels(
                models.skip(i as int),
                (MAX_CALENDAR_ITEMS - labels@.len()) as nat,
            ) == shown_labels(models, MAX_CALENDAR_ITEMS as nat),
        decreases events.len() - i,
    {
        let ghost seen = text::texts(labels@);
        proof {
            assert(models.skip(i as int)[0] == events@[i as int]@);
            assert(models.skip(i as int).drop_first() =~= models.skip(i + 1));
        }
        if events[i].minutes_until >= 0 {
            let label = format_calendar_label(&events[i]);
            let ghost rest = shown_labels(
                models.skip(i + 1),
                (MAX_CALENDAR_ITEMS - labels@.len() - 1) as nat,
            );
            proof {
                assert(text::texts(labels@.push(label)) =~= seen.push(label@));
                assert(seen + (seq![label@] + rest) =~= seen.push(label@) + rest);
            }
            labels.push(label);
        }
        i += 1;
    }
    proof {
        let room = (MAX_CALENDAR_ITEMS - labels@.len()) as nat;
        assert(shown_labels(models.skip(i as int), room) =~= Seq::empty());
        assert(text::texts(labels@) =~= shown_labels(models, MAX_CALENDAR_ITEMS as nat));
    }
    labels
}

/// The tray never shows more meetings than it has room for.
pub proof fn lemma_shown_meetings_fit(events: Seq<EventModel>, room: nat)
    ensures
        shown_labels(events, room).len() <= room,
    decreases events.len(),
{
    if events.len() > 0 && room > 0 {
        lemma_shown_meetings_fit(events.drop_first(), (room - 1) as nat);
        lemma_shown_meetings_fit(events.drop_first(), room);
    }
}

/// A meeting is prompted for once: after a refresh that saw it about to
/// begin, the next one that still lists it prompts for nothing of its title.
pub proof fn lemma_meeting_is_prompted_for_once(
    events: Seq<EventModel>,
    notified: Set<Seq<char>>,
    i: int,
    later: Seq<EventModel>,
    k: int,
)
    requires
        0 <= i < events.len(),
        about_to_begin(events[i]),
        0 <= k < later.len(),
        later[k].title == events[i].title,
    ensures
        !prompted(
            later,
            notified_after(events, notified, events.len() as int).filter(
                |title: Seq<char>| current(events, title),
            ),
            k,
        ),
{
    let title = events[i].title;
    lemma_notified_after(events, notified, events.len() as int, title);
    assert(current(events, title));
    assert(notified_after(events, notified, events.len() as int).filter(
        |t: Seq<char>| current(events, t),
    ).contains(title));
}

/// The id under which a shown meeting stands in the tray.
pub fn calendar_item_id(index: usize) -> (id: String)
    ensures
        id@ == "cal-"@ + text::decimal(index as nat),
{
    joined("cal-", decimal_text(index as u64).as_str())
}

/// A refresh that took at least this long means that the calendar hangs.
pub const CALENDAR_SLOW_SECS: u64 = 2;

/// How many slow refreshes in a row it takes to back off.
pub const CALENDAR_MAX_TIMEOUTS: u32 = 2;

/// The first wait: five minutes.
pub const CALENDAR_BACKOFF_SECS: u64 = 300;

/// The longest wait: half an hour.
pub const CALENDAR_BACKOFF_CAP_SECS: u64 = 1800;

/// Backs off from a calendar that hangs, longer each time.
#[derive(Debug, Clone, Copy, PartialEq, Eq, Structural)]
pub struct CalendarBreaker {
    pub consecutive_timeouts: u32,
    pub backoff_secs: u64,
}

impl CalendarBreaker {
    pub open spec fn well_formed(self) -> bool {
        CALENDAR_BACKOFF_SECS <= self.backoff_secs <= CALENDAR_BACKOFF_CAP_SECS
    }

    /// How many seconds a breaker in this state makes the next refresh wait.
    pub open spec fn wait(self) -> Option<u64> {
        if self.consecutive_timeouts >= CALENDAR_MAX_TIMEOUTS {
            Some(self.backoff_secs)
        } else {
            None
        }
    }

    /// The breaker after that wait: the next one is twice as long, up to the
    /// longest.
    pub open spec fn after_wait(self) -> CalendarBreaker {
        CalendarBreaker {
            backoff_secs: if self.wait() is None {
                self.backoff_secs
            } else if self.backoff_secs * 2 <= CALENDAR_BACKOFF_CAP_SECS {
                (self.backoff_secs * 2) as u64
            } else {
                CALENDAR_BACKOFF_CAP_SECS
            },
            ..self
        }
    }

    /// The breaker after a refresh that took so many milliseconds.
    pub open spec fn after_refresh(self, elapsed_millis: u64) -> CalendarBreaker {
        if elapsed_millis >= CALENDAR_SLOW_SECS * 1000 {
            CalendarBreaker {
                consecutive_timeouts: (self.consecutive_timeouts + 1) as u32,
                ..self
            }
        } else {
            CalendarBreaker { consecutive_timeouts: 0, backoff_secs: CALENDAR_BACKOFF_SECS }
        }
    }

    pub fn new() -> (breaker: CalendarBreaker)
        ensures
            breaker.well_formed(),
            breaker == (CalendarBreaker {
                consecutive_timeouts: 0,
                backoff_secs: CALENDAR_BACKOFF_SECS,
            }),
    {
        CalendarBreaker { consecutive_timeouts: 0, backoff_secs: CALENDAR_BACKOFF_SECS }
    }

    /// How many seconds to wait before the next refresh. The count of slow
    /// refreshes stays, so that one more keeps escalating.
    pub fn wait_before_refresh(&mut self) -> (secs: Option<u64>)
        requires
            old(self).well_formed(),
        ensures
            final(self).well_formed(),
            secs == old(self).wait(),
            *final(self) == old(self).after_wait(),
            final(self).consecutive_timeouts == old(self).consecutive_timeouts,
            old(self).consecutive_timeouts < CALENDAR_MAX_TIMEOUTS ==> secs is None
                && *final(self) == *old(self),
            old(self).consecutive_timeouts >= CALENDAR_MAX_TIMEOUTS ==> {
                &&& secs == Some(old(self).backoff_secs)
                &&& final(self).backoff_secs == (if old(self).backoff_secs * 2
                    <= CALENDAR_BACKOFF_CAP_SECS {
                    old(self).backoff_secs * 2
                } else {
                    CALENDAR_BACKOFF_CAP_SECS as int
                })
            },
    {
        if self.consecutive_timeouts < CALENDAR_MAX_TIMEOUTS {
            return None;
        }
        let secs: u64 = self.backoff_secs;
        let doubled: u64 = secs * 2;
        self.backoff_secs = if doubled <= CALENDAR_BACKOFF_CAP_SECS {
            doubled
        } else {
            CALENDAR_BACKOFF_CAP_SECS
        };
        Some(secs)
    }

    /// Takes how long a refresh took, in milliseconds.
    pub fn refreshed(&mut self, elapsed_millis: u64)
        requires
            old(self).well_formed(),
            elapsed_millis < CALENDAR_SLOW_SECS * 1000 || old(self).consecutive_timeouts < u32::MAX,
        ensures
            final(self).well_formed(),
            *final(self) == old(self).after_refresh(elapsed_millis),
            elapsed_millis >= CALENDAR_SLOW_SECS * 1000 ==> *final(self) == (CalendarBreaker {
                consecutive_timeouts: (old(self).consecutive_timeouts + 1) as u32,
                ..*old(self)
            }),
            elapsed_millis < CALENDAR_SLOW_SECS * 1000 ==> *final(self) == (CalendarBreaker {
                consecutive_timeouts: 0,
                backoff_secs: CALENDAR_BACKOFF_SECS,
            }),
    {
        if elapsed_millis >= CALENDAR_SLOW_SECS * 1000 {
            self.consecutive_timeouts += 1;
        } else {
            self.consecutive_timeouts = 0;
            self.backoff_secs = CALENDAR_BACKOFF_SECS;
        }
    }
}

/// A meeting that has begun is on now; one that begins within the hour is that
/// many minutes away.
pub proof fn lemma_minutes_are_told(n: i64)
    ensures
        n <= 0 ==> waiting_time(n) == " · now"@,
        0 < n < 60 ==> waiting_time(n) == " · in "@ + text::decimal(n as nat) + " min"@,
{
    if n == 1 {
        reveal_strlit(" · in 1 min");
        reveal_strlit(" · in ");
        reveal_strlit(" min");
        text::lemma_decimal_of_a_digit(1);
        assert(" · in 1 min"@ =~= " · in "@ + text::decimal(1) + " min"@);
    }
}

/// A label that names `h` hours, or `h` hours and `m` minutes, is that of a
/// meeting in sixty times `h` and `m` minutes.
pub proof fn lemma_hours_and_minutes_are_told(h: int, m: int)
    requires
        0 < h,
        0 <= m < 60,
        60 * h + m <= i64::MAX,
    ensures
        m == 0 ==> waiting_time((60 * h) as i64) == " · in "@ + text::decimal(h as nat) + "h"@,
        m > 0 ==> waiting_time((60 * h + m) as i64) == " · in "@ + text::decimal(h as nat) + "h "@
            + text::decimal(m as nat) + "m"@,
{
    let n: i64 = (60 * h + m) as i64;
    assert(n / 60 == h && n % 60 == m);
}

/// What `waiting_time` of a wait says: hours, minutes, and the words between.
#[verifier::rlimit(40)]
proof fn lemma_wait_is_read_back(n: i64) -> (parts: (nat, Seq<char>))
    requires
        n > 0,
    ensures
        waiting_time(n) == " · in "@ + (text::decimal(parts.0) + parts.1),
        parts.1.len() > 0,
        !('0' <= parts.1[0] <= '9'),
        n < 60 ==> parts == (n as nat, " min"@),
        n >= 60 && n % 60 == 0 ==> parts == ((n / 60) as nat, "h"@),
        n >= 60 && n % 60 != 0 ==> parts == (
            (n / 60) as nat,
            "h "@ + (text::decimal((n % 60) as nat) + "m"@),
        ),
{
    reveal_strlit(" min");
    reveal_strlit("h");
    reveal_strlit("h ");
    if n < 60 {
        lemma_minutes_are_told(n);
        let parts = (n as nat, " min"@);
        assert(waiting_time(n) =~= " · in "@ + (text::decimal(parts.0) + parts.1));
        parts
    } else if n % 60 == 0 {
        let parts = ((n / 60) as nat, "h"@);
        assert(waiting_time(n) =~= " · in "@ + (text::decimal(parts.0) + parts.1));
        parts
    } else {
        let parts = (
            (n / 60) as nat,
            "h "@ + (text::decimal((n % 60) as nat) + "m"@),
        );
        assert(waiting_time(n) =~= " · in "@ + (text::decimal(parts.0) + parts.1));
        parts
    }
}

/// Two waits under the same title have the same label only where they are the
/// same, or both meetings have begun.
#[verifier::rlimit(40)]
pub proof fn lemma_labels_tell_waits_apart(title: Seq<char>, a: i64, b: i64)
    requires
        title + waiting_time(a) == title + waiting_time(b),
    ensures
        a == b || (a <= 0 && b <= 0),
{
    assert((title + waiting_time(a)).skip(title.len() as int) =~= waiting_time(a));
    assert((title + waiting_time(b)).skip(title.len() as int) =~= waiting_time(b));
    reveal_strlit(" · now");
    reveal_strlit(" · in ");
    if a > 0 {
        let x = lemma_wait_is_read_back(a);
        assert(waiting_time(a)[3] == 'i');
    }
    if b > 0 {
        let y = lemma_wait_is_read_back(b);
        assert(waiting_time(b)[3] == 'i');
    }
    if a > 0 && b > 0 {
        let x = lemma_wait_is_read_back(a);
        let y = lemma_wait_is_read_back(b);
        let said = text::decimal(x.0) + x.1;
        let meant = text::decimal(y.0) + y.1;
        assert((" · in "@ + said).skip(" · in "@.len() as int) =~= said);
        assert((" · in "@ + meant).skip(" · in "@.len() as int) =~= meant);
        text::lemma_number_ends_at_another_character(x.0, x.1, y.0, y.1);
        reveal_strlit(" min");
        reveal_strlit("h");
        reveal_strlit("h ");
        reveal_strlit("m");
        if a >= 60 && a % 60 != 0 {
            assert(x.1[1] == ' ');
            assert(b >= 60 && b % 60 != 0);
            let p = text::decimal((a % 60) as nat) + "m"@;
            let q = text::decimal((b % 60) as nat) + "m"@;
            assert(("h "@ + p).skip(2) =~= p);
            assert(("h "@ + q).skip(2) =~= q);
            text::lemma_number_ends_at_another_character(
                (a % 60) as nat,
                "m"@,
                (b % 60) as nat,
                "m"@,
            );
        }
    }
}

/// The label of a meeting is its title and then its wait.
pub proof fn lemma_label_begins_with_the_title(event: EventModel)
    ensures
        calendar_label(event) == event.title + waiting_time(event.minutes_until),
{
}

/// A meeting is about to begin in the three minutes before it does, the one
/// in which it does among them, and is prompted for then, once.
pub proof fn lemma_when_a_meeting_is_prompted_for(
    title: Seq<char>,
    url: Option<Seq<char>>,
    minutes_until: i64,
    notified: Set<Seq<char>>,
)
    ensures
        prompted(seq![EventModel { title, minutes_until, url }], notified, 0) <==> 0
            <= minutes_until <= 3 && !notified.contains(title),
{
    let events = seq![EventModel { title, minutes_until, url }];
    assert(events[0].title == title);
}

/// A title is forgotten once its meeting began more than five minutes ago.
pub proof fn lemma_when_a_title_is_forgotten(
    title: Seq<char>,
    url: Option<Seq<char>>,
    minutes_until: i64,
    other: Seq<char>,
)
    requires
        other != title,
    ensures
        current(seq![EventModel { title, minutes_until, url }], title) <==> minutes_until >= -5,
        !current(seq![EventModel { title, minutes_until, url }], other),
        !current(Seq::empty(), title),
{
    let events = seq![EventModel { title, minutes_until, url }];
    assert(events[0].title == title);
}

/// The menu shows the meetings that have not begun, in order, while there is
/// room.
pub proof fn lemma_which_meetings_are_shown(event: EventModel, rest: Seq<EventModel>, room: nat)
    ensures
        event.minutes_until < 0 ==> shown_labels(seq![event] + rest, room) == shown_labels(
            rest,
            room,
        ),
        event.minutes_until >= 0 && room > 0 ==> shown_labels(seq![event] + rest, room) == seq![
            event.title + waiting_time(event.minutes_until),
        ] + shown_labels(rest, (room - 1) as nat),
        shown_labels(rest, 0) == Seq::<Seq<char>>::empty(),
        shown_labels(Seq::empty(), room) == Seq::<Seq<char>>::empty(),
{
    assert((seq![event] + rest).drop_first() =~= rest);
    assert(shown_labels(Seq::empty(), 0) == Seq::<Seq<char>>::empty());
    if room == 0 && event.minutes_until < 0 {
        assert(shown_labels(seq![event] + rest, 0) == Seq::<Seq<char>>::empty());
    }
}

/// The calendar is read every minute, four hours ahead, and shows three
/// meetings behind the second line of the menu; a slow read takes two seconds,
/// two of them in a row open the breaker, for five minutes first and for half
/// an hour at the most.
pub proof fn lemma_how_the_calendar_is_read()
    ensures
        CALENDAR_REFRESH_SECS == 60,
        CALENDAR_LOOKAHEAD_MINUTES == 4 * 60,
        MAX_CALENDAR_ITEMS == 3,
        CALENDAR_MENU_POSITION == 2,
        CALENDAR_SLOW_SECS == 2,
        CALENDAR_MAX_TIMEOUTS == 2,
        CALENDAR_BACKOFF_SECS == 5 * 60,
        CALENDAR_BACKOFF_CAP_SECS == 30 * 60,
{
}

/// The breaker opens at the second slow refresh in a row, and a quick one
/// closes it and starts it afresh. A refresh is slow from two seconds on.
pub proof fn lemma_second_slow_refresh_opens_the_breaker(
    breaker: CalendarBreaker,
    first: u64,
    second: u64,
    quick: u64,
)
    requires
        breaker.consecutive_timeouts == 0,
        first >= 2000,
        second >= 2000,
        quick < 2000,
    ensures
        breaker.wait() is None,
        breaker.after_refresh(first).wait() is None,
        breaker.after_refresh(first).after_refresh(second).wait() == Some(breaker.backoff_secs),
        breaker.after_refresh(first).after_refresh(second).after_refresh(quick)
            == (CalendarBreaker { consecutive_timeouts: 0, backoff_secs: 300 }),
{
}

/// Each wait is twice the one before, from five minutes up to half an hour; a
/// slow refresh in between changes nothing in that.
pub proof fn lemma_waits_double_up_to_half_an_hour(breaker: CalendarBreaker, slow: u64)
    requires
        breaker.well_formed(),
        2 <= breaker.consecutive_timeouts < u32::MAX,
        slow >= 2000,
    ensures
        ({
            let next = breaker.after_wait().after_refresh(slow);
            &&& breaker.wait() matches Some(secs) && 300 <= secs <= 1800
            &&& 2 * breaker.backoff_secs <= 1800 ==> next.wait() == Some(
                (2 * breaker.backoff_secs) as u64,
            )
            &&& 2 * breaker.backoff_secs > 1800 ==> next.wait() == Some(1800u64)
        }),
{
}

/// A breaker that is closed does not make a refresh wait, nor change by being
/// asked.
pub proof fn lemma_closed_breaker_stays_as_it_is(breaker: CalendarBreaker)
    requires
        breaker.consecutive_timeouts < 2,
    ensures
        breaker.wait() is None,
        breaker.after_wait() == breaker,
{
}

/// What a label says is how long the wait is: so many minutes, so many hours,
/// or hours and fewer than sixty minutes more.
pub proof fn lemma_label_gives_the_wait(n: i64, h: nat, m: nat)
    requires
        n > 0,
    ensures
        waiting_time(n) == " · in "@ + text::decimal(h) + "h "@ + text::decimal(m) + "m"@ ==> n
            == 60 * h + m && 0 < m < 60,
        waiting_time(n) == " · in "@ + text::decimal(h) + "h"@ ==> n == 60 * h,
        waiting_time(n) == " · in "@ + text::decimal(m) + " min"@ ==> n == m && m < 60,
{
    if waiting_time(n) == " · in "@ + text::decimal(h) + "h "@ + text::decimal(m) + "m"@ {
        let both = "h "@ + (text::decimal(m) + "m"@);
        assert(waiting_time(n) =~= " · in "@ + (text::decimal(h) + both));
        lemma_hours_and_minutes_are_read(n, h, m);
    }
    if waiting_time(n) == " · in "@ + text::decimal(h) + "h"@ {
        assert(waiting_time(n) =~= " · in "@ + (text::decimal(h) + "h"@));
        lemma_hours_are_read(n, h);
    }
    if waiting_time(n) == " · in "@ + text::decimal(m) + " min"@ {
        assert(waiting_time(n) =~= " · in "@ + (text::decimal(m) + " min"@));
        lemma_minutes_are_read(n, m);
    }
}

/// Two texts that are the same behind the same lead are the same.
proof fn lemma_same_behind(lead: Seq<char>, a: Seq<char>, b: Seq<char>)
    requires
        lead + a == lead + b,
    ensures
        a == b,
{
    assert((lead + a).skip(lead.len() as int) =~= a);
    assert((lead + b).skip(lead.len() as int) =~= b);
}

#[verifier::rlimit(40)]
proof fn lemma_hours_and_minutes_are_read(n: i64, h: nat, m: nat)
    requires
        n > 0,
        waiting_time(n) == " · in "@ + (text::decimal(h) + ("h "@ + (text::decimal(m) + "m"@))),
    ensures
        n == 60 * h + m && 0 < m < 60,
{
    let both = "h "@ + (text::decimal(m) + "m"@);
    let parts = lemma_wait_is_read_back(n);
    reveal_strlit(" min");
    reveal_strlit("h");
    reveal_strlit("h ");
    reveal_strlit("m");
    assert(both[0] == 'h' && both[1] == ' ');
    lemma_same_behind(" · in "@, text::decimal(parts.0) + parts.1, text::decimal(h) + both);
    text::lemma_number_ends_at_another_character(parts.0, parts.1, h, both);
    assert(n >= 60 && n % 60 != 0);
    lemma_same_behind(
        "h "@,
        text::decimal((n % 60) as nat) + "m"@,
        text::decimal(m) + "m"@,
    );
    text::lemma_number_ends_at_another_character((n % 60) as nat, "m"@, m, "m"@);
}

proof fn lemma_hours_are_read(n: i64, h: nat)
    requires
        n > 0,
        waiting_time(n) == " · in "@ + (text::decimal(h) + "h"@),
    ensures
        n == 60 * h,
{
    let parts = lemma_wait_is_read_back(n);
    reveal_strlit(" min");
    reveal_strlit("h");
    reveal_strlit("h ");
    lemma_same_behind(" · in "@, text::decimal(parts.0) + parts.1, text::decimal(h) + "h"@);
    text::lemma_number_ends_at_another_character(parts.0, parts.1, h, "h"@);
    if n >= 60 && n % 60 != 0 {
        assert(parts.1[1] == ' ');
    }
}

proof fn lemma_minutes_are_read(n: i64, m: nat)
    requires
        n > 0,
        waiting_time(n) == " · in "@ + (text::decimal(m) + " min"@),
    ensures
        n == m && m < 60,
{
    let parts = lemma_wait_is_read_back(n);
    reveal_strlit(" min");
    reveal_strlit("h");
    reveal_strlit("h ");
    lemma_same_behind(" · in "@, text::decimal(parts.0) + parts.1, text::decimal(m) + " min"@);
    text::lemma_number_ends_at_another_character(parts.0, parts.1, m, " min"@);
    assert(" min"@[0] == ' ' && "h"@[0] == 'h');
    if n >= 60 && n % 60 != 0 {
        assert(parts.1[0] == 'h');
    }
}

/// Of two meetings of one title only the first is prompted for; two of
/// different titles are both, and a title that was prompted for is noted.
pub proof fn lemma_one_prompt_a_title(
    a: EventModel,
    b: EventModel,
    notified: Set<Seq<char>>,
)
    requires
        0 <= a.minutes_until <= 3,
        0 <= b.minutes_until <= 3,
        !notified.contains(a.title),
        !notified.contains(b.title),
    ensures
        prompted(seq![a, b], notified, 0),
        prompted(seq![a, b], notified, 1) <==> a.title != b.title,
        notified_after(seq![a, b], notified, 2) == notified.insert(a.title).insert(b.title),
{
    let events = seq![a, b];
    assert(events[0] == a && events[1] == b);
    assert(about_to_begin(events[0]));
    assert(notified_after(events, notified, 0) == notified);
    assert(notified_after(events, notified, 1) == notified.insert(a.title));
}

/// A meeting that is not about to begin is neither prompted for nor noted.
pub proof fn lemma_distant_meeting_is_left_alone(
    events: Seq<EventModel>,
    event: EventModel,
    notified: Set<Seq<char>>,
)
    requires
        event.minutes_until < 0 || event.minutes_until > 3,
    ensures
        !prompted(events.push(event), notified, events.len() as int),
        notified_after(events.push(event), notified, events.len() as int + 1) == notified_after(
            events.push(event),
            notified,
            events.len() as int,
        ),
{
}

} // verus!
