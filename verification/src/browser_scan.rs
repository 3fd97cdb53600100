//! Looking through the running browsers for a meeting tab.
//!
//! Asking a browser for its tabs is outside work. A scan therefore goes in
//! turns: `next_browser` names the browser to ask, `browser_answered` takes
//! what it said and tells whether the scan is over.

use crate::browsers;
use crate::browsers::{browsers_to_probe, AppleScriptProbe, BrowserSpec, BrowserTab, TabModel};
use crate::deadlines;
use crate::deadlines::deadline_after;
use crate::detector::{
    BrowserMeetProbe, CallDetector, DetectorModel, MeetingProvider, BROWSER_PROBE_BACKOFF_SECS,
    BROWSER_PROBE_INTERVAL_SECS,
};
use crate::meeting_urls;
use crate::meeting_urls::{looks_like_google_meet_meeting_url, looks_like_teams_meeting_tab};
use crate::text;
use vstd::prelude::*;

verus! {

/// Whether a browser is being left alone.
pub open spec fn backed_off(backoff: Map<Seq<char>, u128>, browser: Seq<char>, now: u64) -> bool {
    backoff.dom().contains(browser) && now < backoff[browser]
}

/// The waits after one browser's was looked at: it is forgotten if it is over.
pub open spec fn looked_up(
    backoff: Map<Seq<char>, u128>,
    browser: Seq<char>,
    now: u64,
) -> Map<Seq<char>, u128> {
    if backed_off(backoff, browser, now) {
        backoff
    } else {
        backoff.remove(browser)
    }
}

/// The waits after those of several browsers were looked at.
pub open spec fn all_looked_up(
    backoff: Map<Seq<char>, u128>,
    browsers: Seq<BrowserSpec>,
    now: u64,
) -> Map<Seq<char>, u128>
    decreases browsers.len(),
{
    if browsers.len() == 0 {
        backoff
    } else {
        looked_up(
            all_looked_up(backoff, browsers.drop_last(), now),
            browsers.last().app_name@,
            now,
        )
    }
}

/// Looking waits up changes none that still runs.
pub proof fn lemma_looking_up_keeps_waits(
    backoff: Map<Seq<char>, u128>,
    browsers: Seq<BrowserSpec>,
    browser: Seq<char>,
    now: u64,
)
    ensures
        backed_off(all_looked_up(backoff, browsers, now), browser, now) == backed_off(
            backoff,
            browser,
            now,
        ),
        backed_off(backoff, browser, now) ==> all_looked_up(backoff, browsers, now)[browser]
            == backoff[browser],
    decreases browsers.len(),
{
    if browsers.len() > 0 {
        lemma_looking_up_keeps_waits(backoff, browsers.drop_last(), browser, now);
    }
}

/// The waits after a probe of one browser failed.
pub open spec fn deferred(
    backoff: Map<Seq<char>, u128>,
    browser: Seq<char>,
    now: u64,
) -> Map<Seq<char>, u128> {
    backoff.insert(browser, deadlines::deadline(now, BROWSER_PROBE_BACKOFF_SECS))
}

/// A browser whose probe failed is left alone for five minutes, no longer,
/// and no other browser is affected.
pub proof fn lemma_backoff_is_per_browser_and_ends(
    backoff: Map<Seq<char>, u128>,
    failed: Seq<char>,
    other: Seq<char>,
    then: u64,
    now: u64,
)
    requires
        other != failed,
    ensures
        backed_off(deferred(backoff, failed, then), failed, now) == (now < then
            + BROWSER_PROBE_BACKOFF_SECS * deadlines::NANOS_PER_SEC),
        backed_off(deferred(backoff, failed, then), other, now) == backed_off(backoff, other, now),
{
}

impl CallDetector {
    /// Whether this browser may be asked; forgets a wait that is over.
    pub fn browser_probe_allowed_for(&mut self, browser_app: &str, now: u64) -> (allowed: bool)
        ensures
            allowed == !backed_off(old(self)@.backoff, browser_app@, now),
            final(self)@ == (DetectorModel {
                backoff: looked_up(old(self)@.backoff, browser_app@, now),
                ..old(self)@
            }),
    {
        match self.browser_probe_backoff_until.get(browser_app) {
            Some(until) => {
                if (now as u128) < until {
                    false
                } else {
                    self.browser_probe_backoff_until.remove(browser_app);
                    true
                }
            },
            None => {
                proof {
                    assert(self@.backoff.remove(browser_app@) =~= self@.backoff);
                }
                true
            },
        }
    }

    /// Leaves this browser alone for a while.
    pub fn defer_browser_probe_for(&mut self, browser_app: &str, now: u64)
        ensures
            final(self)@ == (DetectorModel {
                backoff: deferred(old(self)@.backoff, browser_app@, now),
                ..old(self)@
            }),
    {
        self.browser_probe_backoff_until.insert(
            browser_app,
            deadline_after(now, BROWSER_PROBE_BACKOFF_SECS),
        );
    }
}

/// A scan of the running browsers: those before `next` are done with.
#[derive(Debug)]
pub struct BrowserScan {
    pub browsers: Vec<BrowserSpec>,
    pub next: usize,
    pub want_meet: bool,
    pub want_teams: bool,
}

/// What to do next in a scan.
#[derive(Debug)]
pub enum ScanStep {
    /// Ask this browser for its tabs.
    Query(BrowserSpec),
    /// There is nobody left to ask.
    Finished(BrowserMeetProbe),
}

/// Each name in lower case.
pub open spec fn lowercase_names(names: Seq<String>) -> Seq<Seq<char>> {
    names.map_values(|name: String| text::unicode_lowercase(name@))
}

fn lowered_names(running: &[String]) -> (lower: Vec<String>)
    ensures
        text::texts(lower@) == lowercase_names(running@),
{
    let mut lower: Vec<String> = Vec::new();
    let mut i: usize = 0;
    while i < running.len()
        invariant
            i <= running.len(),
            lower@.len() == i,
            forall|j: int|
                0 <= j < i ==> (#[trigger] lower@[j])@ == text::unicode_lowercase(running@[j]@),
        decreases running.len() - i,
    {
        lower.push(running[i].as_str().to_lowercase());
        i += 1;
    }
    proof {
        assert(text::texts(lower@) =~= lowercase_names(running@));
    }
    lower
}

impl BrowserScan {
    pub open spec fn well_formed(self) -> bool {
        self.next <= self.browsers@.len()
    }

    /// A scan of the browsers that are running.
    pub fn new(running: &[String], want_meet: bool, want_teams: bool) -> (scan: BrowserScan)
        ensures
            scan.browsers@ == browsers::browsers_seen(
                browsers::browser_table(),
                lowercase_names(running@),
            ),
            scan.well_formed(),
            scan.next == 0,
            scan.want_meet == want_meet,
            scan.want_teams == want_teams,
    {
        let lower = lowered_names(running);
        BrowserScan {
            browsers: browsers_to_probe(lower.as_slice()),
            next: 0,
            want_meet,
            want_teams,
        }
    }
}

/// The provider whose meeting a tab shows.
pub open spec fn tab_provider(tab: TabModel, want_meet: bool, want_teams: bool) -> Option<
    MeetingProvider,
> {
    let url = meeting_urls::lowered(tab.url);
    if want_meet && meeting_urls::meet_url(url) {
        Some(MeetingProvider::GoogleMeet)
    } else if want_teams && meeting_urls::teams_tab(url, text::unicode_lowercase(tab.title)) {
        Some(MeetingProvider::TeamsWeb)
    } else {
        None
    }
}

/// The provider of the first tab that shows a meeting.
pub open spec fn first_meeting(tabs: Seq<TabModel>, want_meet: bool, want_teams: bool) -> Option<
    MeetingProvider,
>
    decreases tabs.len(),
{
    if tabs.len() == 0 {
        None
    } else {
        match tab_provider(tabs[0], want_meet, want_teams) {
            Some(provider) => Some(provider),
            None => first_meeting(tabs.drop_first(), want_meet, want_teams),
        }
    }
}

pub fn find_meeting(tabs: &[BrowserTab], want_meet: bool, want_teams: bool) -> (found: Option<
    MeetingProvider,
>)
    ensures
        found == first_meeting(browsers::tab_models(tabs@), want_meet, want_teams),
{
    let ghost models = browsers::tab_models(tabs@);
    let mut i: usize = 0;
    proof {
        assert(models.skip(0) =~= models);
    }
    while i < tabs.len()
        invariant
            i <= tabs.len(),
            models == browsers::tab_models(tabs@),
            first_meeting(models, want_meet, want_teams) == first_meeting(
                models.skip(i as int),
                want_meet,
                want_teams,
            ),
        decreases tabs.len() - i,
    {
        proof {
            assert(models.skip(i as int)[0] == tabs@[i as int]@);
            assert(models.skip(i as int).drop_first() =~= models.skip(i + 1));
        }
        if want_meet && looks_like_google_meet_meeting_url(tabs[i].url.as_str()) {
            return Some(MeetingProvider::GoogleMeet);
        }
        if want_teams && looks_like_teams_meeting_tab(
            tabs[i].url.as_str(),
            tabs[i].title.as_str(),
        ) {
            return Some(MeetingProvider::TeamsWeb);
        }
        i += 1;
    }
    None
}

/// A browser that the scan passes over: it is being left alone, or it is no
/// plausible holder of the microphone.
pub open spec fn passed_over<G: Fn(&BrowserSpec) -> bool>(
    browser: BrowserSpec,
    backoff: Map<Seq<char>, u128>,
    now: u64,
    browser_has_input: G,
) -> bool {
    ||| backed_off(backoff, browser.app_name@, now)
    ||| browser_has_input.ensures((&browser,), false)
}

/// What a scan that asked everybody found.
pub open spec fn nothing_found(browsers: Seq<BrowserSpec>) -> BrowserMeetProbe {
    if browsers.len() > 0 {
        BrowserMeetProbe::NoMatch
    } else {
        BrowserMeetProbe::NoBrowserProcesses
    }
}

/// What the answer of a browser comes to; nothing if the scan goes on.
pub open spec fn answer_ends_scan(
    reply: AppleScriptProbe,
    want_meet: bool,
    want_teams: bool,
) -> bool {
    match reply {
        AppleScriptProbe::Tabs(tabs) => first_meeting(
            browsers::tab_models(tabs@),
            want_meet,
            want_teams,
        ) is Some,
        AppleScriptProbe::PermissionDenied => true,
        AppleScriptProbe::Error { .. } => true,
    }
}

impl CallDetector {
    /// Begins a scan and puts off the next one.
    pub fn start_browser_scan(
        &mut self,
        running: &[String],
        want_meet: bool,
        want_teams: bool,
        now: u64,
    ) -> (scan: BrowserScan)
        ensures
            scan.browsers@ == browsers::browsers_seen(
                browsers::browser_table(),
                lowercase_names(running@),
            ),
            scan.well_formed(),
            scan.next == 0,
            scan.want_meet == want_meet,
            scan.want_teams == want_teams,
            final(self)@ == (DetectorModel {
                browser_probe_next_allowed_at: Some(
                    deadlines::deadline(now, BROWSER_PROBE_INTERVAL_SECS),
                ),
                ..old(self)@
            }),
    {
        self.schedule_next_browser_probe(now);
        BrowserScan::new(running, want_meet, want_teams)
    }

    /// The next browser to ask. `browser_has_input` decides, per browser and
    /// before it is asked anything, whether that browser is a plausible mic
    /// holder right now. Browsers failing it are skipped, so a stale Meet tab
    /// in an idle browser is never queried and cannot shadow a live call in
    /// the next browser of the table.
    pub fn next_browser<G>(
        &mut self,
        scan: &mut BrowserScan,
        browser_has_input: &G,
        now: u64,
    ) -> (step: ScanStep) where G: Fn(&BrowserSpec) -> bool
        requires
            old(scan).well_formed(),
            forall|browser: &BrowserSpec| #[trigger] (*browser_has_input).requires((browser,)),
        ensures
            final(scan).well_formed(),
            final(scan).browsers@ == old(scan).browsers@,
            final(scan).want_meet == old(scan).want_meet,
            final(scan).want_teams == old(scan).want_teams,
            old(scan).next <= final(scan).next,
            match step {
                ScanStep::Query(browser) => {
                    let at = final(scan).next - 1;
                    &&& old(scan).next <= at < old(scan).browsers@.len()
                    &&& browser == old(scan).browsers@[at]
                    &&& !backed_off(old(self)@.backoff, browser.app_name@, now)
                    &&& (*browser_has_input).ensures((&browser,), true)
                    &&& forall|j: int|
                        old(scan).next <= j < at ==> passed_over(
                            #[trigger] old(scan).browsers@[j],
                            old(self)@.backoff,
                            now,
                            *browser_has_input,
                        )
                },
                ScanStep::Finished(probe) => {
                    &&& probe == nothing_found(old(scan).browsers@)
                    &&& final(scan).next == old(scan).browsers@.len()
                    &&& forall|j: int|
                        old(scan).next <= j < old(scan).browsers@.len() ==> passed_over(
                            #[trigger] old(scan).browsers@[j],
                            old(self)@.backoff,
                            now,
                            *browser_has_input,
                        )
                },
            },
            final(self)@ == (DetectorModel {
                backoff: all_looked_up(
                    old(self)@.backoff,
                    old(scan).browsers@.subrange(
                        old(scan).next as int,
                        final(scan).next as int,
                    ),
                    now,
                ),
                ..old(self)@
            }),
    {
        let ghost start = scan.next as int;
        let ghost all = scan.browsers@;
        let ghost before = self@;
        proof {
            assert(all.subrange(start, start) =~= Seq::empty());
        }
        while scan.next < scan.browsers.len()
            invariant
                all == scan.browsers@,
                start == old(scan).next,
                all == old(scan).browsers@,
                scan.want_meet == old(scan).want_meet,
                scan.want_teams == old(scan).want_teams,
                before == old(self)@,
                start <= scan.next <= all.len(),
                forall|browser: &BrowserSpec| #[trigger] (*browser_has_input).requires((browser,)),
                forall|j: int|
                    start <= j < scan.next ==> passed_over(
                        #[trigger] all[j],
                        before.backoff,
                        now,
                        *browser_has_input,
                    ),
                self@ == (DetectorModel {
                    backoff: all_looked_up(
                        before.backoff,
                        all.subrange(start, scan.next as int),
                        now,
                    ),
                    ..before
                }),
            decreases scan.browsers.len() - scan.next,
        {
            let browser = scan.browsers[scan.next];
            proof {
                let seen = all.subrange(start, scan.next as int);
                let more = all.subrange(start, scan.next + 1);
                assert(more.drop_last() =~= seen);
                assert(more.last() == browser);
                lemma_looking_up_keeps_waits(before.backoff, seen, browser.app_name@, now);
            }
            scan.next += 1;
            let allowed = self.browser_probe_allowed_for(browser.app_name, now);
            if allowed && (*browser_has_input)(&browser) {
                return ScanStep::Query(browser);
            }
        }
        if scan.browsers.len() > 0 {
            ScanStep::Finished(BrowserMeetProbe::NoMatch)
        } else {
            ScanStep::Finished(BrowserMeetProbe::NoBrowserProcesses)
        }
    }

    /// Takes what a browser answered: the outcome of the scan, or nothing if
    /// the next browser is to be asked. A browser that could not be asked is
    /// left alone for a while.
    pub fn browser_answered(
        &mut self,
        scan: &BrowserScan,
        browser: &BrowserSpec,
        reply: &AppleScriptProbe,
        now: u64,
    ) -> (outcome: Option<BrowserMeetProbe>)
        ensures
            outcome is Some == answer_ends_scan(*reply, scan.want_meet, scan.want_teams),
            match (*reply, outcome) {
                (AppleScriptProbe::Tabs(tabs), Some(probe)) => probe == (
                BrowserMeetProbe::Detected {
                    provider: first_meeting(
                        browsers::tab_models(tabs@),
                        scan.want_meet,
                        scan.want_teams,
                    )->0,
                    browser: *browser,
                }),
                (AppleScriptProbe::PermissionDenied, Some(probe)) => {
                    probe matches BrowserMeetProbe::PermissionDenied { browser_app }
                        && browser_app@ == browser.app_name@
                },
                (AppleScriptProbe::Error { .. }, Some(probe)) => probe
                    == BrowserMeetProbe::Error,
                (_, None) => true,
            },
            final(self)@ == (if reply is Tabs {
                old(self)@
            } else {
                DetectorModel {
                    backoff: deferred(old(self)@.backoff, browser.app_name@, now),
                    ..old(self)@
                }
            }),
    {
        match reply {
            AppleScriptProbe::Tabs(tabs) => {
                match find_meeting(tabs.as_slice(), scan.want_meet, scan.want_teams) {
                    Some(provider) => Some(
                        BrowserMeetProbe::Detected { provider, browser: *browser },
                    ),
                    None => None,
                }
            },
            AppleScriptProbe::PermissionDenied => {
                self.defer_browser_probe_for(browser.app_name, now);
                Some(BrowserMeetProbe::PermissionDenied { browser_app: browser.app_name.to_owned() })
            },
            AppleScriptProbe::Error { .. } => {
                self.defer_browser_probe_for(browser.app_name, now);
                Some(BrowserMeetProbe::Error)
            },
        }
    }
}

proof fn lemma_looking_up_in_turns(
    backoff: Map<Seq<char>, u128>,
    first: Seq<BrowserSpec>,
    second: Seq<BrowserSpec>,
    now: u64,
)
    ensures
        all_looked_up(all_looked_up(backoff, first, now), second, now) == all_looked_up(
            backoff,
            first + second,
            now,
        ),
    decreases second.len(),
{
    if second.len() == 0 {
        assert(first + second =~= first);
    } else {
        lemma_looking_up_in_turns(backoff, first, second.drop_last(), now);
        assert((first + second).drop_last() =~= first + second.drop_last());
    }
}

/// A browser that was asked, and what it answered.
pub open spec fn asked<
    G: Fn(&BrowserSpec) -> bool,
    Q: Fn(&BrowserSpec) -> AppleScriptProbe,
>(
    browser: BrowserSpec,
    backoff: Map<Seq<char>, u128>,
    now: u64,
    browser_has_input: G,
    query: Q,
    reply: AppleScriptProbe,
) -> bool {
    &&& !backed_off(backoff, browser.app_name@, now)
    &&& browser_has_input.ensures((&browser,), true)
    &&& query.ensures((&browser,), reply)
}

/// A browser that does not end a scan: it is passed over, or its tabs show no
/// meeting.
pub open spec fn shows_nothing<
    G: Fn(&BrowserSpec) -> bool,
    Q: Fn(&BrowserSpec) -> AppleScriptProbe,
>(
    browser: BrowserSpec,
    backoff: Map<Seq<char>, u128>,
    now: u64,
    browser_has_input: G,
    query: Q,
    want_meet: bool,
    want_teams: bool,
) -> bool {
    ||| passed_over(browser, backoff, now, browser_has_input)
    ||| exists|reply: AppleScriptProbe|
        #![trigger query.ensures((&browser,), reply)]
        asked(browser, backoff, now, browser_has_input, query, reply) && !answer_ends_scan(
            reply,
            want_meet,
            want_teams,
        )
}

/// What an answer that ends a scan comes to.
pub open spec fn outcome_of_answer(
    browser: BrowserSpec,
    reply: AppleScriptProbe,
    want_meet: bool,
    want_teams: bool,
    outcome: BrowserMeetProbe,
) -> bool {
    match reply {
        AppleScriptProbe::Tabs(tabs) => {
            let found = first_meeting(browsers::tab_models(tabs@), want_meet, want_teams);
            found is Some && outcome == (BrowserMeetProbe::Detected { provider: found->0, browser })
        },
        AppleScriptProbe::PermissionDenied => {
            outcome matches BrowserMeetProbe::PermissionDenied { browser_app } && browser_app@
                == browser.app_name@
        },
        AppleScriptProbe::Error { .. } => outcome == BrowserMeetProbe::Error,
    }
}

/// The waits after an answer.
pub open spec fn backoff_after_answer(
    backoff: Map<Seq<char>, u128>,
    browser: BrowserSpec,
    reply: AppleScriptProbe,
    now: u64,
) -> Map<Seq<char>, u128> {
    if reply is Tabs {
        backoff
    } else {
        deferred(backoff, browser.app_name@, now)
    }
}

/// A scan that the browser at `k` ends with this answer.
pub open spec fn ended_by<
    G: Fn(&BrowserSpec) -> bool,
    Q: Fn(&BrowserSpec) -> AppleScriptProbe,
>(
    all: Seq<BrowserSpec>,
    k: int,
    reply: AppleScriptProbe,
    before: Map<Seq<char>, u128>,
    now: u64,
    browser_has_input: G,
    query: Q,
    want_meet: bool,
    want_teams: bool,
    outcome: BrowserMeetProbe,
    after: Map<Seq<char>, u128>,
) -> bool {
    &&& 0 <= k < all.len()
    &&& asked(all[k], before, now, browser_has_input, query, reply)
    &&& outcome_of_answer(all[k], reply, want_meet, want_teams, outcome)
    &&& forall|j: int|
        0 <= j < k ==> shows_nothing(
            #[trigger] all[j],
            before,
            now,
            browser_has_input,
            query,
            want_meet,
            want_teams,
        )
    &&& after == backoff_after_answer(
        all_looked_up(before, all.take(k + 1), now),
        all[k],
        reply,
        now,
    )
}

impl CallDetector {
    /// A scan in one call, where asking a browser is a function call: goes
    /// through the running browsers until one shows a meeting or cannot be
    /// asked.
    pub fn detect_browser_meeting<G, Q>(
        &mut self,
        running: &[String],
        want_meet: bool,
        want_teams: bool,
        now: u64,
        browser_has_input: G,
        query: Q,
    ) -> (outcome: BrowserMeetProbe) where
        G: Fn(&BrowserSpec) -> bool,
        Q: Fn(&BrowserSpec) -> AppleScriptProbe,

        requires
            forall|browser: &BrowserSpec| #[trigger] browser_has_input.requires((browser,)),
            forall|browser: &BrowserSpec| #[trigger] query.requires((browser,)),
        ensures
            ({
                let all = browsers::browsers_seen(
                    browsers::browser_table(),
                    lowercase_names(running@),
                );
                let before = old(self)@.backoff;
                let after = final(self)@.backoff;
                &&& final(self)@ == (DetectorModel { backoff: after, ..old(self)@ })
                &&& {
                    ||| {
                        &&& outcome == nothing_found(all)
                        &&& forall|j: int|
                            0 <= j < all.len() ==> shows_nothing(
                                #[trigger] all[j],
                                before,
                                now,
                                browser_has_input,
                                query,
                                want_meet,
                                want_teams,
                            )
                        &&& after == all_looked_up(before, all, now)
                    }
                    ||| exists|k: int, reply: AppleScriptProbe| #[trigger]
                        ended_by(
                            all,
                            k,
                            reply,
                            before,
                            now,
                            browser_has_input,
                            query,
                            want_meet,
                            want_teams,
                            outcome,
                            after,
                        )
                }
            }),
    {
        let mut scan = BrowserScan::new(running, want_meet, want_teams);
        let ghost all = scan.browsers@;
        let ghost before = self@;
        proof {
            assert(all.take(0) =~= Seq::empty());
        }
        loop
            invariant
                scan.well_formed(),
                scan.browsers@ == all,
                all == browsers::browsers_seen(
                    browsers::browser_table(),
                    lowercase_names(running@),
                ),
                scan.want_meet == want_meet,
                scan.want_teams == want_teams,
                before == old(self)@,
                forall|browser: &BrowserSpec| #[trigger] browser_has_input.requires((browser,)),
                forall|browser: &BrowserSpec| #[trigger] query.requires((browser,)),
                self@ == (DetectorModel {
                    backoff: all_looked_up(before.backoff, all.take(scan.next as int), now),
                    ..before
                }),
                forall|j: int|
                    0 <= j < scan.next ==> shows_nothing(
                        #[trigger] all[j],
                        before.backoff,
                        now,
                        browser_has_input,
                        query,
                        want_meet,
                        want_teams,
                    ),
            decreases all.len() - scan.next,
        {
            let ghost start = scan.next as int;
            let ghost known = self@.backoff;
            let step = self.next_browser(
                &mut scan,
                &browser_has_input,
                now,
            );
            proof {
                assert(all.take(start) + all.subrange(start, scan.next as int) =~= all.take(
                    scan.next as int,
                ));
                lemma_looking_up_in_turns(
                    before.backoff,
                    all.take(start),
                    all.subrange(start, scan.next as int),
                    now,
                );
                assert forall|j: int| start <= j < all.len() implies backed_off(
                    known,
                    (#[trigger] all[j]).app_name@,
                    now,
                ) == backed_off(before.backoff, all[j].app_name@, now) by {
                    lemma_looking_up_keeps_waits(
                        before.backoff,
                        all.take(start),
                        all[j].app_name@,
                        now,
                    );
                }
            }
            match step {
                ScanStep::Finished(probe) => {
                    proof {
                        assert(all.take(scan.next as int) =~= all);
                        assert forall|j: int| 0 <= j < all.len() implies shows_nothing(
                            #[trigger] all[j],
                            before.backoff,
                            now,
                            browser_has_input,
                            query,
                            want_meet,
                            want_teams,
                        ) by {
                            if j >= start {
                                assert(backed_off(known, all[j].app_name@, now) == backed_off(
                                    before.backoff,
                                    all[j].app_name@,
                                    now,
                                ));
                            }
                        }
                    }
                    return probe;
                },
                ScanStep::Query(browser) => {
                    let ghost at = scan.next - 1;
                    let ghost seen = self@.backoff;
                    proof {
                        assert(all[at] == browser);
                        assert(backed_off(known, all[at].app_name@, now) == backed_off(
                            before.backoff,
                            all[at].app_name@,
                            now,
                        ));
                    }
                    let reply = query(&browser);
                    proof {
                        assert(asked(
                            all[at],
                            before.backoff,
                            now,
                            browser_has_input,
                            query,
                            reply,
                        ));
                        assert forall|j: int| 0 <= j < at implies shows_nothing(
                            #[trigger] all[j],
                            before.backoff,
                            now,
                            browser_has_input,
                            query,
                            want_meet,
                            want_teams,
                        ) by {
                            if j >= start {
                                assert(backed_off(known, all[j].app_name@, now) == backed_off(
                                    before.backoff,
                                    all[j].app_name@,
                                    now,
                                ));
                            }
                        }
                    }
                    if let Some(outcome) = self.browser_answered(&scan, &browser, &reply, now) {
                        proof {
                            assert(ended_by(
                                all,
                                at,
                                reply,
                                before.backoff,
                                now,
                                browser_has_input,
                                query,
                                want_meet,
                                want_teams,
                                outcome,
                                self@.backoff,
                            ));
                        }
                        return outcome;
                    }
                    proof {
                        assert(shows_nothing(
                            all[at],
                            before.backoff,
                            now,
                            browser_has_input,
                            query,
                            want_meet,
                            want_teams,
                        ));
                    }
                },
            }
        }
    }
}

/// How much of a message goes into the reason for leaving a browser alone.
pub const REASON_SNIPPET_CHARS: usize = 240;

pub open spec fn error_reason(stderr: Seq<char>) -> Seq<char> {
    if stderr.len() == 0 {
        "browser_probe_error"@
    } else if stderr.len() <= REASON_SNIPPET_CHARS {
        "browser_probe_error: "@ + stderr
    } else {
        "browser_probe_error: "@ + stderr.take(REASON_SNIPPET_CHARS as int)
    }
}

/// Why a browser is left alone after its probe failed with this message.
pub fn probe_error_reason(stderr: &str) -> (reason: String)
    ensures
        reason@ == error_reason(stderr@),
{
    let chars = text::chars_of(stderr);
    if chars.len() == 0 {
        return "browser_probe_error".to_owned();
    }
    if chars.len() <= REASON_SNIPPET_CHARS {
        return text::joined("browser_probe_error: ", stderr);
    }
    let snippet = text::string_of(
        vstd::slice::slice_subrange(chars.as_slice(), 0, REASON_SNIPPET_CHARS),
    );
    text::joined("browser_probe_error: ", snippet.as_str())
}

/// The first tab that holds a meeting decides; tabs before it that hold none
/// do not matter, nor does any tab behind it.
pub proof fn lemma_first_meeting_tab_decides(
    tabs: Seq<TabModel>,
    want_meet: bool,
    want_teams: bool,
    k: int,
)
    requires
        0 <= k < tabs.len(),
        forall|j: int| 0 <= j < k ==> tab_provider(#[trigger] tabs[j], want_meet, want_teams) is None,
        tab_provider(tabs[k], want_meet, want_teams) is Some,
    ensures
        first_meeting(tabs, want_meet, want_teams) == tab_provider(tabs[k], want_meet, want_teams),
    decreases k,
{
    if k > 0 {
        assert(tab_provider(tabs[0], want_meet, want_teams) is None);
        let rest = tabs.drop_first();
        assert forall|j: int| 0 <= j < k - 1 implies tab_provider(
            #[trigger] rest[j],
            want_meet,
            want_teams,
        ) is None by {
            assert(rest[j] == tabs[j + 1]);
        }
        assert(rest[k - 1] == tabs[k]);
        lemma_first_meeting_tab_decides(rest, want_meet, want_teams, k - 1);
    }
}

/// Where no tab holds a meeting, none is found.
pub proof fn lemma_no_meeting_tab_no_meeting(
    tabs: Seq<TabModel>,
    want_meet: bool,
    want_teams: bool,
)
    requires
        forall|j: int|
            0 <= j < tabs.len() ==> tab_provider(#[trigger] tabs[j], want_meet, want_teams) is None,
    ensures
        first_meeting(tabs, want_meet, want_teams) is None,
    decreases tabs.len(),
{
    if tabs.len() > 0 {
        assert(tab_provider(tabs[0], want_meet, want_teams) is None);
        let rest = tabs.drop_first();
        assert forall|j: int| 0 <= j < rest.len() implies tab_provider(
            #[trigger] rest[j],
            want_meet,
            want_teams,
        ) is None by {
            assert(rest[j] == tabs[j + 1]);
        }
        lemma_no_meeting_tab_no_meeting(rest, want_meet, want_teams);
    }
}

/// What was not asked for is not found.
pub proof fn lemma_only_wanted_meetings_are_found(
    tabs: Seq<TabModel>,
    want_meet: bool,
    want_teams: bool,
)
    ensures
        first_meeting(tabs, want_meet, want_teams) == Some(MeetingProvider::GoogleMeet)
            ==> want_meet,
        first_meeting(tabs, want_meet, want_teams) == Some(MeetingProvider::TeamsWeb)
            ==> want_teams,
    decreases tabs.len(),
{
    if tabs.len() > 0 {
        lemma_only_wanted_meetings_are_found(tabs.drop_first(), want_meet, want_teams);
    }
}

/// A tab at the address of a Teams meeting is found, whatever its title and
/// however its address is capitalised or padded, where Teams is asked for and
/// no tab before it holds a meeting.
#[verifier::rlimit(40)]
pub proof fn lemma_teams_link_is_found(
    tabs: Seq<TabModel>,
    want_meet: bool,
    k: int,
    host: Seq<char>,
    start: Seq<char>,
    marker: Seq<char>,
    rest: Seq<char>,
)
    requires
        0 <= k < tabs.len(),
        forall|j: int| 0 <= j < k ==> tab_provider(#[trigger] tabs[j], want_meet, true) is None,
        host == "teams.microsoft.com/"@ || host == "teams.cloud.microsoft/"@ || host
            == "teams.live.com/"@,
        marker == "pre-join-calling/"@ || marker == "meetup-join/"@ || marker
            == "modern-calling/"@ || marker == "calling-screen/"@,
        text::unicode_lowercase(text::trim(tabs[k].url)) == "https://"@ + (host + (start + marker
            + rest)),
    ensures
        first_meeting(tabs, want_meet, true) == Some(MeetingProvider::TeamsWeb),
{
    let title = text::unicode_lowercase(tabs[k].title);
    meeting_urls::lemma_teams_link_is_a_meeting_tab(start, marker, rest, title);
    meeting_urls::lemma_teams_hosts_are_not_google(start + marker + rest);
    lemma_first_meeting_tab_decides(tabs, want_meet, true, k);
}

/// A tab at the address of a Google Meet meeting is found likewise, and as one
/// of Google Meet, whether Teams is asked for or not.
pub proof fn lemma_meet_link_is_found(
    tabs: Seq<TabModel>,
    want_teams: bool,
    k: int,
    code: Seq<char>,
)
    requires
        0 <= k < tabs.len(),
        forall|j: int| 0 <= j < k ==> tab_provider(#[trigger] tabs[j], true, want_teams) is None,
        code.len() == 12,
        forall|i: int|
            0 <= i < 12 ==> if i == 3 || i == 8 {
                #[trigger] code[i] == '-'
            } else {
                'a' <= code[i] <= 'z'
            },
        text::unicode_lowercase(text::trim(tabs[k].url)) == "https://"@ + ("meet.google.com/"@
            + code),
    ensures
        first_meeting(tabs, true, want_teams) == Some(MeetingProvider::GoogleMeet),
{
    assert(code[0] <= 'z' && code[11] <= 'z');
    assert forall|c: char| c == '?' || c == '#' || c == '/' implies !code.contains(c) by {
        if code.contains(c) {
            let i = choose|i: int| 0 <= i < code.len() && code[i] == c;
            assert(code[i] == c);
        }
    }
    meeting_urls::lemma_meeting_code_shape(code);
    lemma_first_meeting_tab_decides(tabs, true, want_teams, k);
}

/// A browser that could not be asked is left alone for five minutes, and no
/// longer; one that answered is not put off, and no other browser is touched.
pub proof fn lemma_failed_browser_waits_five_minutes(
    backoff: Map<Seq<char>, u128>,
    browser: BrowserSpec,
    other: Seq<char>,
    reply: AppleScriptProbe,
    then: u64,
    now: u64,
)
    requires
        other != browser.app_name@,
    ensures
        ({
            let after = backoff_after_answer(backoff, browser, reply, then);
            &&& reply is Tabs ==> after == backoff
            &&& !(reply is Tabs) ==> backed_off(after, browser.app_name@, now) == (now < then
                + 300_000_000_000)
            &&& backed_off(after, other, now) == backed_off(backoff, other, now)
        }),
{
}

/// Looking a browser up drops its wait once that is over, and nothing else.
pub proof fn lemma_only_past_waits_are_dropped(
    backoff: Map<Seq<char>, u128>,
    browser: Seq<char>,
    other: Seq<char>,
    until: u128,
    now: u64,
)
    ensures
        now < until ==> looked_up(backoff.insert(browser, until), browser, now)
            == backoff.insert(browser, until),
        now >= until ==> !looked_up(backoff.insert(browser, until), browser, now).dom().contains(
            browser,
        ),
        other != browser ==> looked_up(backoff, browser, now).dom().contains(other)
            == backoff.dom().contains(other),
        !backed_off(Map::empty(), browser, now),
{
}

/// What an answer comes to: a meeting under the browser it was found in, the
/// name of the browser that may not be controlled, or an error. Tabs without
/// a meeting let the scan go on.
pub proof fn lemma_what_an_answer_comes_to(
    reply: AppleScriptProbe,
    tabs: Vec<BrowserTab>,
    want_meet: bool,
    want_teams: bool,
)
    ensures
        answer_ends_scan(AppleScriptProbe::PermissionDenied, want_meet, want_teams),
        reply is Error ==> answer_ends_scan(reply, want_meet, want_teams),
        answer_ends_scan(AppleScriptProbe::Tabs(tabs), want_meet, want_teams) <==> exists|k: int|
            0 <= k < tabs@.len() && tab_provider(
                (#[trigger] tabs@[k])@,
                want_meet,
                want_teams,
            ) is Some,
{
    let models = browsers::tab_models(tabs@);
    if exists|k: int|
        0 <= k < tabs@.len() && tab_provider((#[trigger] tabs@[k])@, want_meet, want_teams) is Some {
        let k = choose|k: int|
            0 <= k < tabs@.len() && tab_provider(
                (#[trigger] tabs@[k])@,
                want_meet,
                want_teams,
            ) is Some;
        lemma_earliest_meeting_tab(models, want_meet, want_teams, k);
    } else {
        assert forall|j: int| 0 <= j < models.len() implies tab_provider(
            #[trigger] models[j],
            want_meet,
            want_teams,
        ) is None by {
            assert(models[j] == tabs@[j]@);
        }
        lemma_no_meeting_tab_no_meeting(models, want_meet, want_teams);
    }
}

proof fn lemma_earliest_meeting_tab(
    tabs: Seq<TabModel>,
    want_meet: bool,
    want_teams: bool,
    k: int,
)
    requires
        0 <= k < tabs.len(),
        tab_provider(tabs[k], want_meet, want_teams) is Some,
    ensures
        first_meeting(tabs, want_meet, want_teams) is Some,
    decreases tabs.len(),
{
    if k > 0 && tab_provider(tabs[0], want_meet, want_teams) is None {
        assert(tabs.drop_first()[k - 1] == tabs[k]);
        lemma_earliest_meeting_tab(tabs.drop_first(), want_meet, want_teams, k - 1);
    }
}

/// Browsers that showed nothing are told from no browsers at all.
pub proof fn lemma_nothing_found(browsers: Seq<BrowserSpec>, browser: BrowserSpec)
    ensures
        nothing_found(browsers.push(browser)) == BrowserMeetProbe::NoMatch,
        nothing_found(Seq::empty()) == BrowserMeetProbe::NoBrowserProcesses,
{
}

/// A reason carries what the failure said, up to 240 characters of it.
pub proof fn lemma_reason_carries_the_failure(stderr: Seq<char>)
    ensures
        stderr.len() == 0 ==> error_reason(stderr) == "browser_probe_error"@,
        0 < stderr.len() <= 240 ==> error_reason(stderr) == "browser_probe_error: "@ + stderr,
        stderr.len() > 240 ==> error_reason(stderr) == "browser_probe_error: "@ + stderr.take(240),
{
}

/// A browser that waits, or that does not hold the microphone, is not asked.
pub proof fn lemma_who_is_not_asked<
    G: Fn(&BrowserSpec) -> bool,
    Q: Fn(&BrowserSpec) -> AppleScriptProbe,
>(
    browser: BrowserSpec,
    backoff: Map<Seq<char>, u128>,
    until: u128,
    now: u64,
    browser_has_input: G,
    query: Q,
    reply: AppleScriptProbe,
)
    ensures
        now < until ==> !asked(
            browser,
            backoff.insert(browser.app_name@, until),
            now,
            browser_has_input,
            query,
            reply,
        ) && passed_over(
            browser,
            backoff.insert(browser.app_name@, until),
            now,
            browser_has_input,
        ),
        !browser_has_input.ensures((&browser,), true) ==> !asked(
            browser,
            backoff,
            now,
            browser_has_input,
            query,
            reply,
        ),
        asked(browser, backoff, now, browser_has_input, query, reply) ==> query.ensures(
            (&browser,),
            reply,
        ),
{
}

/// A scan that a browser ends is ended in the name of that browser: with the
/// meeting its tabs hold, with its refusal, which puts it off for five minutes,
/// or with an error, which does so too. The other browsers are not put off.
#[verifier::rlimit(40)]
pub proof fn lemma_a_browser_ends_the_scan<
    G: Fn(&BrowserSpec) -> bool,
    Q: Fn(&BrowserSpec) -> AppleScriptProbe,
>(
    all: Seq<BrowserSpec>,
    k: int,
    reply: AppleScriptProbe,
    before: Map<Seq<char>, u128>,
    now: u64,
    browser_has_input: G,
    query: Q,
    want_meet: bool,
    want_teams: bool,
    outcome: BrowserMeetProbe,
    after: Map<Seq<char>, u128>,
    other: Seq<char>,
    later: u64,
)
    requires
        ended_by(
            all,
            k,
            reply,
            before,
            now,
            browser_has_input,
            query,
            want_meet,
            want_teams,
            outcome,
            after,
        ),
        other != all[k].app_name@,
        now <= later,
    ensures
        0 <= k < all.len(),
        query.ensures((&all[k],), reply),
        reply matches AppleScriptProbe::Tabs(tabs) ==> (outcome
            matches BrowserMeetProbe::Detected { provider, browser } && browser == all[k]
            && first_meeting(browsers::tab_models(tabs@), want_meet, want_teams) == Some(provider)),
        reply is PermissionDenied ==> (outcome
            matches BrowserMeetProbe::PermissionDenied { browser_app } && browser_app@
            == all[k].app_name@),
        reply is Error ==> outcome == BrowserMeetProbe::Error,
        !(reply is Tabs) ==> backed_off(after, all[k].app_name@, later) == (later < now
            + 300_000_000_000),
        reply is Tabs ==> !backed_off(after, all[k].app_name@, now),
        backed_off(after, other, now) == backed_off(before, other, now),
        forall|j: int|
            0 <= j < k ==> passed_over(#[trigger] all[j], before, now, browser_has_input) || (exists|
                said: AppleScriptProbe,
            |
                #![trigger query.ensures((&all[j],), said)]
                query.ensures((&all[j],), said) && said is Tabs),
{
    let looked = all_looked_up(before, all.take(k + 1), now);
    lemma_looking_up_keeps_waits(before, all.take(k + 1), other, now);
    lemma_looking_up_keeps_waits(before, all.take(k + 1), all[k].app_name@, now);
    assert forall|j: int| 0 <= j < k implies passed_over(
        #[trigger] all[j],
        before,
        now,
        browser_has_input,
    ) || (exists|said: AppleScriptProbe|
        #![trigger query.ensures((&all[j],), said)]
        query.ensures((&all[j],), said) && said is Tabs) by {
        assert(shows_nothing(
            all[j],
            before,
            now,
            browser_has_input,
            query,
            want_meet,
            want_teams,
        ));
    }
}

/// Names are compared in lower case, each for itself and in order.
pub proof fn lemma_names_are_lowered(names: Seq<String>, i: int)
    requires
        0 <= i < names.len(),
    ensures
        lowercase_names(names).len() == names.len(),
        lowercase_names(names)[i] == text::unicode_lowercase(names[i]@),
{
}

/// The first browser ends the scan where it is asked and holds a meeting,
/// whatever the browsers behind it show; and a browser that is passed over, or
/// whose answer does not end the scan, shows nothing.
pub proof fn lemma_first_browser_can_end_the_scan<
    G: Fn(&BrowserSpec) -> bool,
    Q: Fn(&BrowserSpec) -> AppleScriptProbe,
>(
    all: Seq<BrowserSpec>,
    tabs: Vec<BrowserTab>,
    before: Map<Seq<char>, u128>,
    now: u64,
    browser_has_input: G,
    query: Q,
    want_meet: bool,
    want_teams: bool,
    provider: MeetingProvider,
    browser: BrowserSpec,
    reply: AppleScriptProbe,
)
    requires
        all.len() > 0,
        !backed_off(before, all[0].app_name@, now),
        browser_has_input.ensures((&all[0],), true),
        query.ensures((&all[0],), AppleScriptProbe::Tabs(tabs)),
        first_meeting(browsers::tab_models(tabs@), want_meet, want_teams) == Some(provider),
    ensures
        ended_by(
            all,
            0,
            AppleScriptProbe::Tabs(tabs),
            before,
            now,
            browser_has_input,
            query,
            want_meet,
            want_teams,
            BrowserMeetProbe::Detected { provider, browser: all[0] },
            looked_up(before, all[0].app_name@, now),
        ),
        passed_over(browser, before, now, browser_has_input) ==> shows_nothing(
            browser,
            before,
            now,
            browser_has_input,
            query,
            want_meet,
            want_teams,
        ),
        asked(browser, before, now, browser_has_input, query, reply) && !answer_ends_scan(
            reply,
            want_meet,
            want_teams,
        ) ==> shows_nothing(
            browser,
            before,
            now,
            browser_has_input,
            query,
            want_meet,
            want_teams,
        ),
        browser_has_input.ensures((&browser,), false) ==> passed_over(
            browser,
            before,
            now,
            browser_has_input,
        ),
{
    let first = all.take(1);
    assert(first.last() == all[0]);
    assert(first.drop_last() =~= Seq::empty());
    assert(all_looked_up(before, first.drop_last(), now) == before);
}

} // verus!
