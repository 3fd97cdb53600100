//! Which browser tabs are meetings: the addresses of Google Meet and Teams,
//! and the titles that the Teams client gives a tab on a call.
//!
//! All of it is decided on lower-cased text; each function on a raw address
//! trims and lowers it, each on a raw title lowers it, and asks the function
//! that takes the result. A title is not trimmed: a prefix may end in a space.

use crate::text;
use crate::text::{chars_of, contains_text, starts_with, strip_prefix_chars};
use vstd::prelude::*;

verus! {

/// An address as it is compared: trimmed and lower-cased.
pub open spec fn lowered(url: Seq<char>) -> Seq<char> {
    text::unicode_lowercase(text::trim(url))
}

/// Trims and lower-cases an address.
pub fn trimmed_lowercase(s: &str) -> (lower: String)
    ensures
        lower@ == lowered(s@),
{
    let chars = chars_of(s);
    text::string_of(text::trim_chars(chars.as_slice())).to_lowercase()
}

/// An address without its `https://` or `http://`.
pub open spec fn without_scheme(lower: Seq<char>) -> Seq<char> {
    match text::strip_prefix(lower, "https://"@) {
        Some(rest) => rest,
        None => match text::strip_prefix(lower, "http://"@) {
            Some(rest) => rest,
            None => lower,
        },
    }
}

fn strip_scheme<'a>(lower: &'a [char]) -> (rest: &'a [char])
    ensures
        rest@ == without_scheme(lower@),
{
    match strip_prefix_chars(lower, "https://") {
        Some(rest) => rest,
        None => match strip_prefix_chars(lower, "http://") {
            Some(rest) => rest,
            None => lower,
        },
    }
}

/// Three, four and three small letters with hyphens between: `abc-defg-hij`.
pub open spec fn meet_code(segment: Seq<char>) -> bool {
    &&& segment.len() == 12
    &&& segment[3] == '-'
    &&& segment[8] == '-'
    &&& forall|i: int|
        0 <= i < 12 && i != 3 && i != 8 ==> 'a' <= #[trigger] segment[i] && segment[i] <= 'z'
}

fn is_meet_code(segment: &[char]) -> (yes: bool)
    ensures
        yes == meet_code(segment@),
{
    if segment.len() != 12 || segment[3] != '-' || segment[8] != '-' {
        return false;
    }
    let mut i: usize = 0;
    while i < 12
        invariant
            i <= 12,
            segment@.len() == 12,
            forall|j: int|
                0 <= j < i && j != 3 && j != 8 ==> 'a' <= #[trigger] segment@[j] && segment@[j]
                    <= 'z',
        decreases 12 - i,
    {
        if i != 3 && i != 8 && !('a' <= segment[i] && segment[i] <= 'z') {
            return false;
        }
        i += 1;
    }
    true
}

pub fn looks_like_google_meet_meeting_code(segment: &str) -> (yes: bool)
    ensures
        yes == meet_code(segment@),
{
    is_meet_code(chars_of(segment).as_slice())
}

/// The first segment of a path: what stands before a `?`, `#` or `/`, trimmed.
pub open spec fn first_segment(path: Seq<char>) -> Seq<char> {
    text::trim(text::before(text::before(text::before(path, '?'), '#'), '/'))
}

/// Whether a lower-cased address leads to a meeting on Google Meet.
pub open spec fn meet_url(lower: Seq<char>) -> bool {
    match text::strip_prefix(without_scheme(lower), "meet.google.com/"@) {
        Some(path) => meet_code(first_segment(path)),
        None => false,
    }
}

pub fn lowered_is_google_meet_url(lower: &str) -> (yes: bool)
    ensures
        yes == meet_url(lower@),
{
    let chars = chars_of(lower);
    match strip_prefix_chars(strip_scheme(chars.as_slice()), "meet.google.com/") {
        Some(path) => {
            let segment = text::before_chars(
                text::before_chars(text::before_chars(path, '?'), '#'),
                '/',
            );
            is_meet_code(text::trim_chars(segment))
        },
        None => false,
    }
}

pub fn looks_like_google_meet_meeting_url(url: &str) -> (yes: bool)
    ensures
        yes == meet_url(lowered(url@)),
{
    lowered_is_google_meet_url(trimmed_lowercase(url).as_str())
}

/// The screens of the Teams client on which a call is joined or held.
pub open spec fn calling_screen(path: Seq<char>) -> bool {
    ||| text::occurs_in("pre-join-calling/"@, path)
    ||| text::occurs_in("meetup-join/"@, path)
    ||| text::occurs_in("modern-calling/"@, path)
    ||| text::occurs_in("calling-screen/"@, path)
}

fn has_calling_screen(path: &[char]) -> (yes: bool)
    ensures
        yes == calling_screen(path@),
{
    contains_text(path, "pre-join-calling/") || contains_text(path, "meetup-join/")
        || contains_text(path, "modern-calling/") || contains_text(path, "calling-screen/")
}

/// Whether a lower-cased address leads to a meeting on Teams. The chat and
/// calendar pages do not: a user leaves those open all day.
pub open spec fn teams_url(lower: Seq<char>) -> bool {
    let address = without_scheme(lower);
    match text::strip_prefix(address, "teams.live.com/"@) {
        Some(path) => calling_screen(path) || text::occurs_in("meet/"@, path),
        None => match text::strip_prefix(address, "teams.microsoft.com/"@) {
            Some(path) => calling_screen(path),
            None => match text::strip_prefix(address, "teams.cloud.microsoft/"@) {
                Some(path) => calling_screen(path),
                None => false,
            },
        },
    }
}

pub fn lowered_is_teams_meeting_url(lower: &str) -> (yes: bool)
    ensures
        yes == teams_url(lower@),
{
    let chars = chars_of(lower);
    let address = strip_scheme(chars.as_slice());
    match strip_prefix_chars(address, "teams.live.com/") {
        Some(path) => has_calling_screen(path) || contains_text(path, "meet/"),
        None => match strip_prefix_chars(address, "teams.microsoft.com/") {
            Some(path) => has_calling_screen(path),
            None => match strip_prefix_chars(address, "teams.cloud.microsoft/") {
                Some(path) => has_calling_screen(path),
                None => false,
            },
        },
    }
}

/// Match a Microsoft Teams in-browser meeting URL.
pub fn looks_like_teams_meeting_url(url: &str) -> (yes: bool)
    ensures
        yes == teams_url(lowered(url@)),
{
    lowered_is_teams_meeting_url(trimmed_lowercase(url).as_str())
}

/// The client itself: `/v2`, or something below it.
pub open spec fn v2_path(path: Seq<char>) -> bool {
    path == "/v2"@ || "/v2/"@.is_prefix_of(path)
}

pub open spec fn v2_root_on(address: Seq<char>, host: Seq<char>) -> bool {
    match text::strip_prefix(address, host) {
        Some(path) => v2_path(path),
        None => false,
    }
}

/// Whether a lower-cased address is the Teams client on one of its hosts.
/// `teams.cloud.microsoft` is the newer work and school domain;
/// `teams.live.com` is personal Teams.
pub open spec fn teams_v2_root(lower: Seq<char>) -> bool {
    let address = without_scheme(lower);
    ||| v2_root_on(address, "teams.live.com"@)
    ||| v2_root_on(address, "teams.microsoft.com"@)
    ||| v2_root_on(address, "teams.cloud.microsoft"@)
}

fn is_v2_root_on(address: &[char], host: &str) -> (yes: bool)
    ensures
        yes == v2_root_on(address@, host@),
{
    match strip_prefix_chars(address, host) {
        Some(path) => text::same_chars(path, chars_of("/v2").as_slice()) || starts_with(
            path,
            "/v2/",
        ),
        None => false,
    }
}

pub fn lowered_is_teams_v2_root(lower: &str) -> (yes: bool)
    ensures
        yes == teams_v2_root(lower@),
{
    let chars = chars_of(lower);
    let address = strip_scheme(chars.as_slice());
    is_v2_root_on(address, "teams.live.com") || is_v2_root_on(address, "teams.microsoft.com")
        || is_v2_root_on(address, "teams.cloud.microsoft")
}

pub fn is_teams_v2_root(url: &str) -> (yes: bool)
    ensures
        yes == teams_v2_root(lowered(url@)),
{
    lowered_is_teams_v2_root(trimmed_lowercase(url).as_str())
}

/// Whether a lower-cased title is one that the Teams client gives a tab that
/// is in a meeting or a call, in one of the languages seen so far. Chat,
/// calendar and activity tabs begin otherwise.
pub open spec fn teams_meeting_title(lower: Seq<char>) -> bool {
    ||| "meeting"@.is_prefix_of(lower)
    ||| "call "@.is_prefix_of(lower)
    ||| "calling"@.is_prefix_of(lower)
    ||| "spotkanie"@.is_prefix_of(lower)
    ||| "połączenie"@.is_prefix_of(lower)
    ||| "trwa połączenie"@.is_prefix_of(lower)
    ||| "reunión"@.is_prefix_of(lower)
    ||| "reunion"@.is_prefix_of(lower)
    ||| "llamada"@.is_prefix_of(lower)
    ||| "réunion"@.is_prefix_of(lower)
    ||| "appel"@.is_prefix_of(lower)
    ||| "besprechung"@.is_prefix_of(lower)
    ||| "anruf"@.is_prefix_of(lower)
    ||| "reunião"@.is_prefix_of(lower)
    ||| "chamada"@.is_prefix_of(lower)
    ||| "riunione"@.is_prefix_of(lower)
    ||| "chiamata"@.is_prefix_of(lower)
    ||| "vergadering"@.is_prefix_of(lower)
    ||| "gesprek"@.is_prefix_of(lower)
    ||| "собрание"@.is_prefix_of(lower)
    ||| "встреча"@.is_prefix_of(lower)
    ||| "вызов"@.is_prefix_of(lower)
    ||| "schůzka"@.is_prefix_of(lower)
    ||| "hovor"@.is_prefix_of(lower)
    ||| "értekezlet"@.is_prefix_of(lower)
    ||| "hívás"@.is_prefix_of(lower)
    ||| "ședință"@.is_prefix_of(lower)
    ||| "apel"@.is_prefix_of(lower)
    ||| "toplantı"@.is_prefix_of(lower)
    ||| "arama"@.is_prefix_of(lower)
    ||| "会議"@.is_prefix_of(lower)
    ||| "会议"@.is_prefix_of(lower)
    ||| "會議"@.is_prefix_of(lower)
    ||| "회의"@.is_prefix_of(lower)
}

fn has_teams_meeting_title(lower: &[char]) -> (yes: bool)
    ensures
        yes == teams_meeting_title(lower@),
{
    starts_with(lower, "meeting")
        || starts_with(lower, "call ")
        || starts_with(lower, "calling")
        || starts_with(lower, "spotkanie")
        || starts_with(lower, "połączenie")
        || starts_with(lower, "trwa połączenie")
        || starts_with(lower, "reunión")
        || starts_with(lower, "reunion")
        || starts_with(lower, "llamada")
        || starts_with(lower, "réunion")
        || starts_with(lower, "appel")
        || starts_with(lower, "besprechung")
        || starts_with(lower, "anruf")
        || starts_with(lower, "reunião")
        || starts_with(lower, "chamada")
        || starts_with(lower, "riunione")
        || starts_with(lower, "chiamata")
        || starts_with(lower, "vergadering")
        || starts_with(lower, "gesprek")
        || starts_with(lower, "собрание")
        || starts_with(lower, "встреча")
        || starts_with(lower, "вызов")
        || starts_with(lower, "schůzka")
        || starts_with(lower, "hovor")
        || starts_with(lower, "értekezlet")
        || starts_with(lower, "hívás")
        || starts_with(lower, "ședință")
        || starts_with(lower, "apel")
        || starts_with(lower, "toplantı")
        || starts_with(lower, "arama")
        || starts_with(lower, "会議")
        || starts_with(lower, "会议")
        || starts_with(lower, "會議")
        || starts_with(lower, "회의")
}

pub fn lowered_title_indicates_teams_meeting(lower: &str) -> (yes: bool)
    ensures
        yes == teams_meeting_title(lower@),
{
    has_teams_meeting_title(chars_of(lower).as_slice())
}

pub fn title_indicates_teams_meeting(title: &str) -> (yes: bool)
    ensures
        yes == teams_meeting_title(text::unicode_lowercase(title@)),
{
    lowered_title_indicates_teams_meeting(title.to_lowercase().as_str())
}

/// Whether a tab is a Teams meeting: by its address, or, as the client does
/// not show its route in the address, by its title on the client's own page.
pub open spec fn teams_tab(url_lower: Seq<char>, title_lower: Seq<char>) -> bool {
    teams_url(url_lower) || (teams_v2_root(url_lower) && teams_meeting_title(title_lower))
}

/// Combined Teams meeting check: URL pattern OR (Teams v2 root + meeting-y
/// tab title).
pub fn looks_like_teams_meeting_tab(url: &str, title: &str) -> (yes: bool)
    ensures
        yes == teams_tab(lowered(url@), text::unicode_lowercase(title@)),
{
    looks_like_teams_meeting_url(url) || (is_teams_v2_root(url) && title_indicates_teams_meeting(
        title,
    ))
}

/// A link to a meeting is one whatever is asked for behind its code: a query,
/// a fragment or a further segment changes nothing.
pub proof fn lemma_meet_link_is_recognized(code: Seq<char>, tail: Seq<char>)
    requires
        meet_code(code),
        tail.len() > 0 ==> tail[0] == '?' || tail[0] == '#' || tail[0] == '/',
    ensures
        meet_url("https://meet.google.com/"@ + code + tail),
        meet_url("http://meet.google.com/"@ + code + tail),
        meet_url("meet.google.com/"@ + code + tail),
{
    reveal_strlit("https://");
    reveal_strlit("http://");
    reveal_strlit("meet.google.com/");
    reveal_strlit("https://meet.google.com/");
    reveal_strlit("http://meet.google.com/");
    let path = code + tail;
    lemma_first_segment(code, tail);
    let bare = "meet.google.com/"@ + path;
    assert("meet.google.com/"@.is_prefix_of(bare));
    assert(bare.skip("meet.google.com/"@.len() as int) =~= path);
    let secure = "https://meet.google.com/"@ + code + tail;
    assert("https://meet.google.com/"@ =~= "https://"@ + "meet.google.com/"@);
    assert("https://"@.is_prefix_of(secure));
    assert(secure.skip("https://"@.len() as int) =~= bare);
    let plain = "http://meet.google.com/"@ + code + tail;
    assert("http://meet.google.com/"@ =~= "http://"@ + "meet.google.com/"@);
    assert("http://"@.is_prefix_of(plain));
    assert(plain[4] == ':' && "https://"@[4] == 's');
    assert(!"https://"@.is_prefix_of(plain)) by {
        if "https://"@.is_prefix_of(plain) {
            assert(plain.subrange(0, 8)[4] == plain[4]);
        }
    }
    assert(plain.skip("http://"@.len() as int) =~= bare);
    assert("meet.google.com/"@ + code + tail =~= bare);
    assert(bare[0] == 'm' && "https://"@[0] == 'h' && "http://"@[0] == 'h');
    assert(!"https://"@.is_prefix_of(bare)) by {
        if "https://"@.is_prefix_of(bare) {
            assert(bare.subrange(0, 8)[0] == bare[0]);
        }
    }
    assert(!"http://"@.is_prefix_of(bare)) by {
        if "http://"@.is_prefix_of(bare) {
            assert(bare.subrange(0, 7)[0] == bare[0]);
        }
    }
}

proof fn lemma_first_segment(code: Seq<char>, tail: Seq<char>)
    requires
        meet_code(code),
        tail.len() > 0 ==> tail[0] == '?' || tail[0] == '#' || tail[0] == '/',
    ensures
        first_segment(code + tail) == code,
{
    let path = code + tail;
    assert forall|i: int| 0 <= i < code.len() implies #[trigger] code[i] != '?' && code[i] != '#'
        && code[i] != '/' by {
        if i != 3 && i != 8 {
            assert('a' <= code[i]);
        }
    }
    lemma_cut(code, tail, '?');
    let one = text::before(path, '?');
    let tail_one = one.skip(code.len() as int);
    assert(one =~= code + tail_one);
    lemma_cut(code, tail_one, '#');
    let two = text::before(one, '#');
    let tail_two = two.skip(code.len() as int);
    assert(two =~= code + tail_two);
    lemma_cut(code, tail_two, '/');
    let three = text::before(two, '/');
    assert(three =~= code);
    assert(Seq::<char>::empty() + code =~= code);
    assert(code + Seq::<char>::empty() =~= code);
    assert('a' <= code[0] && 'a' <= code[11]);
    text::lemma_trim_start(Seq::empty(), code);
    text::lemma_trim_end(code, Seq::empty());
}

/// Cutting at a character that the head does not hold keeps the head; nothing
/// is left behind it where the tail begins with that character.
proof fn lemma_cut(head: Seq<char>, tail: Seq<char>, c: char)
    requires
        forall|i: int| 0 <= i < head.len() ==> #[trigger] head[i] != c,
    ensures
        text::before(head + tail, c).len() >= head.len(),
        text::before(head + tail, c).take(head.len() as int) == head,
        tail.len() == 0 || tail[0] == c ==> text::before(head + tail, c) == head,
        tail.len() > 0 && tail[0] != c ==> {
            &&& text::before(head + tail, c).len() > head.len()
            &&& text::before(head + tail, c)[head.len() as int] == tail[0]
        },
    decreases head.len(),
{
    let s = head + tail;
    if head.len() > 0 {
        assert(s[0] == head[0]);
        assert(head[0] != c);
        assert(s.drop_first() =~= head.drop_first() + tail);
        assert forall|i: int| 0 <= i < head.drop_first().len() implies #[trigger] head.drop_first()[i]
            != c by {
            assert(head[i + 1] != c);
        }
        lemma_cut(head.drop_first(), tail, c);
        let shorter = text::before(s.drop_first(), c);
        text::lemma_position_fits(s.drop_first(), c);
        assert(text::before(s, c) =~= seq![head[0]] + shorter);
        assert(text::before(s, c).take(head.len() as int) =~= head) by {
            assert(shorter.take(head.len() - 1) == head.drop_first());
            assert forall|i: int| 0 <= i < head.len() implies text::before(s, c)[i]
                == head[i] by {
                if i > 0 {
                    assert(shorter.take(head.len() - 1)[i - 1] == head.drop_first()[i - 1]);
                }
            }
        }
        if tail.len() == 0 || tail[0] == c {
            assert(shorter == head.drop_first());
            assert(text::before(s, c) =~= head);
        }
    } else {
        assert(s =~= tail);
        text::lemma_position_fits(s, c);
        assert(text::before(s, c).take(0) =~= head);
        if tail.len() == 0 || tail[0] == c {
            assert(text::before(s, c) =~= head);
        } else {
            assert(text::position(s, c) == 1 + text::position(s.drop_first(), c));
        }
    }
}

/// The paths under which Teams joins or holds a call.
pub open spec fn calling_marker(marker: Seq<char>) -> bool {
    ||| marker == "pre-join-calling/"@
    ||| marker == "meetup-join/"@
    ||| marker == "modern-calling/"@
    ||| marker == "calling-screen/"@
}

/// A Teams link that names a screen for calls is recognized on each of its
/// hosts, wherever in the path the screen stands.
pub proof fn lemma_teams_link_is_recognized(
    start: Seq<char>,
    marker: Seq<char>,
    rest: Seq<char>,
)
    requires
        calling_marker(marker),
    ensures
        teams_url("https://teams.microsoft.com/"@ + (start + marker + rest)),
        teams_url("https://teams.cloud.microsoft/"@ + (start + marker + rest)),
        teams_url("https://teams.live.com/"@ + (start + marker + rest)),
{
    reveal_strlit("https://");
    reveal_strlit("teams.microsoft.com/");
    reveal_strlit("teams.cloud.microsoft/");
    reveal_strlit("teams.live.com/");
    reveal_strlit("https://teams.microsoft.com/");
    reveal_strlit("https://teams.cloud.microsoft/");
    reveal_strlit("https://teams.live.com/");
    let path = start + marker + rest;
    assert(path.subrange(start.len() as int, start.len() as int + marker.len()) =~= marker);
    assert(text::occurs_in(marker, path));
    assert(calling_screen(path));
    lemma_host("https://teams.microsoft.com/"@, "teams.microsoft.com/"@, path);
    lemma_host("https://teams.cloud.microsoft/"@, "teams.cloud.microsoft/"@, path);
    lemma_host("https://teams.live.com/"@, "teams.live.com/"@, path);
    let work = "teams.microsoft.com/"@ + path;
    let cloud = "teams.cloud.microsoft/"@ + path;
    assert(work[6] == 'm' && cloud[6] == 'c' && "teams.live.com/"@[6] == 'l'
        && "teams.microsoft.com/"@[6] == 'm');
    lemma_not_prefix("teams.live.com/"@, work, 6);
    lemma_not_prefix("teams.live.com/"@, cloud, 6);
    lemma_not_prefix("teams.microsoft.com/"@, cloud, 6);
}

proof fn lemma_host(full: Seq<char>, host: Seq<char>, path: Seq<char>)
    requires
        full =~= "https://"@ + host,
    ensures
        without_scheme(full + path) == host + path,
        text::strip_prefix(host + path, host) == Some(path),
{
    reveal_strlit("https://");
    let url = full + path;
    assert("https://"@.is_prefix_of(url));
    assert(url.skip("https://"@.len() as int) =~= host + path);
    assert(host.is_prefix_of(host + path));
    assert((host + path).skip(host.len() as int) =~= path);
}

proof fn lemma_not_prefix(prefix: Seq<char>, s: Seq<char>, i: int)
    requires
        0 <= i < prefix.len(),
        i < s.len(),
        prefix[i] != s[i],
    ensures
        !prefix.is_prefix_of(s),
{
    if prefix.is_prefix_of(s) {
        assert(s.subrange(0, prefix.len() as int)[i] == s[i]);
    }
}

/// A text begins with every part that it was put together from the front of.
proof fn lemma_begins(prefix: Seq<char>, rest: Seq<char>)
    ensures
        prefix.is_prefix_of(prefix + rest),
        text::strip_prefix(prefix + rest, prefix) == Some(rest),
{
    assert((prefix + rest).subrange(0, prefix.len() as int) =~= prefix);
    assert((prefix + rest).skip(prefix.len() as int) =~= rest);
}

/// With or without a scheme, the same address is meant.
pub proof fn lemma_scheme_makes_no_difference(address: Seq<char>)
    requires
        address.len() > 0,
        address[0] != 'h',
    ensures
        without_scheme("https://"@ + address) == address,
        without_scheme("http://"@ + address) == address,
        without_scheme(address) == address,
{
    reveal_strlit("https://");
    reveal_strlit("http://");
    lemma_begins("https://"@, address);
    lemma_begins("http://"@, address);
    let plain = "http://"@ + address;
    assert(plain[4] == ':' && "https://"@[4] == 's');
    lemma_not_prefix("https://"@, plain, 4);
    lemma_not_prefix("https://"@, address, 0);
    lemma_not_prefix("http://"@, address, 0);
}

/// The address of a Teams meeting makes a tab a meeting tab, whatever its
/// title: each of the three hosts, with and without a scheme, and a calling
/// screen anywhere in the path.
#[verifier::rlimit(40)]
pub proof fn lemma_teams_link_is_a_meeting_tab(
    start: Seq<char>,
    marker: Seq<char>,
    rest: Seq<char>,
    title: Seq<char>,
)
    requires
        marker == "pre-join-calling/"@ || marker == "meetup-join/"@ || marker
            == "modern-calling/"@ || marker == "calling-screen/"@,
    ensures
        ({
            let path = start + marker + rest;
            &&& teams_tab("https://"@ + ("teams.microsoft.com/"@ + path), title)
            &&& teams_tab("https://"@ + ("teams.cloud.microsoft/"@ + path), title)
            &&& teams_tab("https://"@ + ("teams.live.com/"@ + path), title)
            &&& teams_tab("http://"@ + ("teams.microsoft.com/"@ + path), title)
            &&& teams_tab("http://"@ + ("teams.cloud.microsoft/"@ + path), title)
            &&& teams_tab("http://"@ + ("teams.live.com/"@ + path), title)
            &&& teams_tab("teams.microsoft.com/"@ + path, title)
            &&& teams_tab("teams.cloud.microsoft/"@ + path, title)
            &&& teams_tab("teams.live.com/"@ + path, title)
        }),
{
    let path = start + marker + rest;
    text::lemma_occurs(start, marker, rest);
    assert(calling_screen(path));
    lemma_teams_hosts(path);
}

/// A personal meeting on `teams.live.com` is one by the mark `meet/` too.
pub proof fn lemma_personal_teams_link_is_a_meeting_tab(
    start: Seq<char>,
    rest: Seq<char>,
    title: Seq<char>,
)
    ensures
        teams_tab("https://"@ + ("teams.live.com/"@ + (start + "meet/"@ + rest)), title),
{
    text::lemma_occurs(start, "meet/"@, rest);
    lemma_teams_hosts(start + "meet/"@ + rest);
}

/// On each host, the path alone decides whether an address is a meeting's.
#[verifier::rlimit(40)]
pub proof fn lemma_teams_hosts(path: Seq<char>)
    ensures
        ({
            let calling = text::occurs_in("pre-join-calling/"@, path) || text::occurs_in(
                "meetup-join/"@,
                path,
            ) || text::occurs_in("modern-calling/"@, path) || text::occurs_in(
                "calling-screen/"@,
                path,
            );
            let personal = calling || text::occurs_in("meet/"@, path);
            &&& teams_url("https://"@ + ("teams.microsoft.com/"@ + path)) == calling
            &&& teams_url("https://"@ + ("teams.cloud.microsoft/"@ + path)) == calling
            &&& teams_url("https://"@ + ("teams.live.com/"@ + path)) == personal
            &&& teams_url("http://"@ + ("teams.microsoft.com/"@ + path)) == calling
            &&& teams_url("http://"@ + ("teams.cloud.microsoft/"@ + path)) == calling
            &&& teams_url("http://"@ + ("teams.live.com/"@ + path)) == personal
            &&& teams_url("teams.microsoft.com/"@ + path) == calling
            &&& teams_url("teams.cloud.microsoft/"@ + path) == calling
            &&& teams_url("teams.live.com/"@ + path) == personal
        }),
{
    reveal_strlit("teams.microsoft.com/");
    reveal_strlit("teams.cloud.microsoft/");
    reveal_strlit("teams.live.com/");
    let work = "teams.microsoft.com/"@ + path;
    let cloud = "teams.cloud.microsoft/"@ + path;
    let live = "teams.live.com/"@ + path;
    assert(work[6] == 'm' && cloud[6] == 'c' && "teams.live.com/"@[6] == 'l'
        && "teams.microsoft.com/"@[6] == 'm');
    assert(work[0] == 't' && cloud[0] == 't' && live[0] == 't');
    lemma_scheme_makes_no_difference(work);
    lemma_scheme_makes_no_difference(cloud);
    lemma_scheme_makes_no_difference(live);
    lemma_begins("teams.microsoft.com/"@, path);
    lemma_begins("teams.cloud.microsoft/"@, path);
    lemma_begins("teams.live.com/"@, path);
    lemma_not_prefix("teams.live.com/"@, work, 6);
    lemma_not_prefix("teams.live.com/"@, cloud, 6);
    lemma_not_prefix("teams.microsoft.com/"@, cloud, 6);
}

/// Two names without a slash, each followed by one in the same text, are the
/// same name.
proof fn lemma_same_host(host: Seq<char>, other: Seq<char>, rest: Seq<char>)
    requires
        !host.contains('/'),
        !other.contains('/'),
        other.push('/').is_prefix_of(host.push('/') + rest),
    ensures
        other == host,
{
    let whole = host.push('/') + rest;
    let named = other.push('/');
    assert forall|i: int| 0 <= i < named.len() implies whole[i] == named[i] by {
        assert(whole.subrange(0, named.len() as int)[i] == named[i]);
    }
    let n = host.len() as int;
    let m = other.len() as int;
    assert(whole[n] == '/');
    assert(named[m] == '/');
    if n < m {
        assert(named[n] == other[n]);
        assert(other.contains(other[n]));
    } else if m < n {
        assert(whole[m] == host[m]);
        assert(host.contains(host[m]));
    }
    assert forall|i: int| 0 <= i < m implies other[i] == host[i] by {
        assert(named[i] == other[i] && whole[i] == host[i]);
    }
    assert(other =~= host);
}

/// No other host is taken for a meeting's, whatever path and title the tab
/// has.
pub proof fn lemma_other_hosts_hold_no_meeting(
    host: Seq<char>,
    path: Seq<char>,
    title: Seq<char>,
)
    requires
        !host.contains('/'),
    ensures
        host != "meet.google.com"@ ==> !meet_url("https://"@ + (host.push('/') + path)),
        host != "teams.live.com"@ && host != "teams.microsoft.com"@ && host
            != "teams.cloud.microsoft"@ ==> !teams_tab(
            "https://"@ + (host.push('/') + path),
            title,
        ),
{
    reveal_strlit("https://");
    let address = host.push('/') + path;
    lemma_begins("https://"@, address);
    lemma_plain_host("meet.google.com"@, "meet.google.com/"@, host, path);
    lemma_plain_host("teams.live.com"@, "teams.live.com/"@, host, path);
    lemma_plain_host("teams.microsoft.com"@, "teams.microsoft.com/"@, host, path);
    lemma_plain_host("teams.cloud.microsoft"@, "teams.cloud.microsoft/"@, host, path);
}

#[verifier::rlimit(40)]
proof fn lemma_plain_host(name: Seq<char>, slashed: Seq<char>, host: Seq<char>, path: Seq<char>)
    requires
        !host.contains('/'),
        name == "meet.google.com"@ && slashed == "meet.google.com/"@ || name
            == "teams.live.com"@ && slashed == "teams.live.com/"@ || name
            == "teams.microsoft.com"@ && slashed == "teams.microsoft.com/"@ || name
            == "teams.cloud.microsoft"@ && slashed == "teams.cloud.microsoft/"@,
    ensures
        slashed.is_prefix_of(host.push('/') + path) ==> host == name,
        v2_root_on(host.push('/') + path, name) ==> host == name,
{
    reveal_strlit("meet.google.com");
    reveal_strlit("teams.live.com");
    reveal_strlit("teams.microsoft.com");
    reveal_strlit("teams.cloud.microsoft");
    reveal_strlit("meet.google.com/");
    reveal_strlit("teams.live.com/");
    reveal_strlit("teams.microsoft.com/");
    reveal_strlit("teams.cloud.microsoft/");
    reveal_strlit("/v2");
    reveal_strlit("/v2/");
    let address = host.push('/') + path;
    assert(slashed =~= name.push('/'));
    assert(!name.contains('/'));
    if slashed.is_prefix_of(address) {
        lemma_same_host(host, name, path);
    }
    if v2_root_on(address, name) {
        let tail = address.skip(name.len() as int);
        assert(tail.len() > 0 && tail[0] == '/') by {
            if "/v2/"@.is_prefix_of(tail) {
                assert(tail.subrange(0, 4)[0] == "/v2/"@[0]);
            }
        }
        assert(address[name.len() as int] == '/');
        assert(address.subrange(0, name.len() as int) =~= name);
        assert(address.subrange(0, name.len() as int + 1) =~= name.push('/'));
        lemma_same_host(host, name, path);
    }
}

/// The root of the new client is a meeting tab exactly where its title is a
/// meeting's; the address alone does not tell.
pub proof fn lemma_v2_root_goes_by_its_title(rest: Seq<char>, title: Seq<char>)
    requires
        !text::occurs_in("pre-join-calling/"@, "v2/"@ + rest),
        !text::occurs_in("meetup-join/"@, "v2/"@ + rest),
        !text::occurs_in("modern-calling/"@, "v2/"@ + rest),
        !text::occurs_in("calling-screen/"@, "v2/"@ + rest),
        !text::occurs_in("meet/"@, "v2/"@ + rest),
    ensures
        teams_tab("https://"@ + ("teams.microsoft.com/"@ + ("v2/"@ + rest)), title)
            == teams_meeting_title(title),
        teams_tab("https://"@ + ("teams.cloud.microsoft/"@ + ("v2/"@ + rest)), title)
            == teams_meeting_title(title),
        teams_tab("https://"@ + ("teams.live.com/"@ + ("v2/"@ + rest)), title)
            == teams_meeting_title(title),
{
    lemma_teams_hosts("v2/"@ + rest);
    lemma_v2_root("teams.microsoft.com"@, "teams.microsoft.com/"@, rest);
    lemma_v2_root("teams.cloud.microsoft"@, "teams.cloud.microsoft/"@, rest);
    lemma_v2_root("teams.live.com"@, "teams.live.com/"@, rest);
}

#[verifier::rlimit(40)]
proof fn lemma_v2_root(name: Seq<char>, slashed: Seq<char>, rest: Seq<char>)
    requires
        name == "teams.live.com"@ && slashed == "teams.live.com/"@ || name
            == "teams.microsoft.com"@ && slashed == "teams.microsoft.com/"@ || name
            == "teams.cloud.microsoft"@ && slashed == "teams.cloud.microsoft/"@,
    ensures
        teams_v2_root("https://"@ + (slashed + ("v2/"@ + rest))),
{
    reveal_strlit("teams.live.com");
    reveal_strlit("teams.microsoft.com");
    reveal_strlit("teams.cloud.microsoft");
    reveal_strlit("teams.live.com/");
    reveal_strlit("teams.microsoft.com/");
    reveal_strlit("teams.cloud.microsoft/");
    reveal_strlit("v2/");
    reveal_strlit("/v2/");
    let address = slashed + ("v2/"@ + rest);
    assert(address[0] == 't');
    lemma_scheme_makes_no_difference(address);
    assert(address =~= name + ("/v2/"@ + rest));
    lemma_begins(name, "/v2/"@ + rest);
    lemma_begins("/v2/"@, rest);
    assert(v2_root_on(address, name));
}

/// Each of these beginnings makes a title a meeting's, whatever follows.
pub proof fn lemma_meeting_titles(rest: Seq<char>)
    ensures
        teams_meeting_title("meeting"@ + rest),
        teams_meeting_title("call "@ + rest),
        teams_meeting_title("calling"@ + rest),
        teams_meeting_title("spotkanie"@ + rest),
        teams_meeting_title("połączenie"@ + rest),
        teams_meeting_title("trwa połączenie"@ + rest),
        teams_meeting_title("reunión"@ + rest),
        teams_meeting_title("reunion"@ + rest),
        teams_meeting_title("llamada"@ + rest),
        teams_meeting_title("réunion"@ + rest),
        teams_meeting_title("appel"@ + rest),
        teams_meeting_title("besprechung"@ + rest),
        teams_meeting_title("anruf"@ + rest),
        teams_meeting_title("reunião"@ + rest),
        teams_meeting_title("chamada"@ + rest),
        teams_meeting_title("riunione"@ + rest),
        teams_meeting_title("chiamata"@ + rest),
        teams_meeting_title("vergadering"@ + rest),
        teams_meeting_title("gesprek"@ + rest),
        teams_meeting_title("собрание"@ + rest),
        teams_meeting_title("встреча"@ + rest),
        teams_meeting_title("вызов"@ + rest),
        teams_meeting_title("schůzka"@ + rest),
        teams_meeting_title("hovor"@ + rest),
        teams_meeting_title("értekezlet"@ + rest),
        teams_meeting_title("hívás"@ + rest),
        teams_meeting_title("ședință"@ + rest),
        teams_meeting_title("apel"@ + rest),
        teams_meeting_title("toplantı"@ + rest),
        teams_meeting_title("arama"@ + rest),
        teams_meeting_title("会議"@ + rest),
        teams_meeting_title("会议"@ + rest),
        teams_meeting_title("會議"@ + rest),
        teams_meeting_title("회의"@ + rest),
{
    lemma_begins("meeting"@, rest);
    lemma_begins("call "@, rest);
    lemma_begins("calling"@, rest);
    lemma_begins("spotkanie"@, rest);
    lemma_begins("połączenie"@, rest);
    lemma_begins("trwa połączenie"@, rest);
    lemma_begins("reunión"@, rest);
    lemma_begins("reunion"@, rest);
    lemma_begins("llamada"@, rest);
    lemma_begins("réunion"@, rest);
    lemma_begins("appel"@, rest);
    lemma_begins("besprechung"@, rest);
    lemma_begins("anruf"@, rest);
    lemma_begins("reunião"@, rest);
    lemma_begins("chamada"@, rest);
    lemma_begins("riunione"@, rest);
    lemma_begins("chiamata"@, rest);
    lemma_begins("vergadering"@, rest);
    lemma_begins("gesprek"@, rest);
    lemma_begins("собрание"@, rest);
    lemma_begins("встреча"@, rest);
    lemma_begins("вызов"@, rest);
    lemma_begins("schůzka"@, rest);
    lemma_begins("hovor"@, rest);
    lemma_begins("értekezlet"@, rest);
    lemma_begins("hívás"@, rest);
    lemma_begins("ședință"@, rest);
    lemma_begins("apel"@, rest);
    lemma_begins("toplantı"@, rest);
    lemma_begins("arama"@, rest);
    lemma_begins("会議"@, rest);
    lemma_begins("会议"@, rest);
    lemma_begins("會議"@, rest);
    lemma_begins("회의"@, rest);
}

/// The other places of the client are not taken for a meeting, whatever
/// follows in the title; nor is a tab without one.
#[verifier::rlimit(40)]
pub proof fn lemma_other_titles(rest: Seq<char>)
    ensures
        !teams_meeting_title("chat"@ + rest),
        !teams_meeting_title("calendar"@ + rest),
        !teams_meeting_title("microsoft teams"@ + rest),
        !teams_meeting_title(Seq::empty()),
{
    reveal_strlit("chat");
    reveal_strlit("calendar");
    reveal_strlit("microsoft teams");
    reveal_strlit("meeting");
    reveal_strlit("call ");
    reveal_strlit("calling");
    reveal_strlit("spotkanie");
    reveal_strlit("połączenie");
    reveal_strlit("trwa połączenie");
    reveal_strlit("reunión");
    reveal_strlit("reunion");
    reveal_strlit("llamada");
    reveal_strlit("réunion");
    reveal_strlit("appel");
    reveal_strlit("besprechung");
    reveal_strlit("anruf");
    reveal_strlit("reunião");
    reveal_strlit("chamada");
    reveal_strlit("riunione");
    reveal_strlit("chiamata");
    reveal_strlit("vergadering");
    reveal_strlit("gesprek");
    reveal_strlit("собрание");
    reveal_strlit("встреча");
    reveal_strlit("вызов");
    reveal_strlit("schůzka");
    reveal_strlit("hovor");
    reveal_strlit("értekezlet");
    reveal_strlit("hívás");
    reveal_strlit("ședință");
    reveal_strlit("apel");
    reveal_strlit("toplantı");
    reveal_strlit("arama");
    reveal_strlit("会議");
    reveal_strlit("会议");
    reveal_strlit("會議");
    reveal_strlit("회의");
    let chat = "chat"@ + rest;
    let calendar = "calendar"@ + rest;
    let home = "microsoft teams"@ + rest;
    assert(chat[0] == 'c' && chat[1] == 'h' && chat[2] == 'a' && chat[3] == 't');
    assert(calendar[0] == 'c' && calendar[1] == 'a' && calendar[2] == 'l' && calendar[3] == 'e');
    assert(home[0] == 'm' && home[1] == 'i');
    lemma_not_prefix("meeting"@, chat, 0);
    lemma_not_prefix("call "@, chat, 1);
    lemma_not_prefix("calling"@, chat, 1);
    lemma_not_prefix("spotkanie"@, chat, 0);
    lemma_not_prefix("połączenie"@, chat, 0);
    lemma_not_prefix("trwa połączenie"@, chat, 0);
    lemma_not_prefix("reunión"@, chat, 0);
    lemma_not_prefix("reunion"@, chat, 0);
    lemma_not_prefix("llamada"@, chat, 0);
    lemma_not_prefix("réunion"@, chat, 0);
    lemma_not_prefix("appel"@, chat, 0);
    lemma_not_prefix("besprechung"@, chat, 0);
    lemma_not_prefix("anruf"@, chat, 0);
    lemma_not_prefix("reunião"@, chat, 0);
    lemma_not_prefix("chamada"@, chat, 3);
    lemma_not_prefix("riunione"@, chat, 0);
    lemma_not_prefix("chiamata"@, chat, 2);
    lemma_not_prefix("vergadering"@, chat, 0);
    lemma_not_prefix("gesprek"@, chat, 0);
    lemma_not_prefix("собрание"@, chat, 0);
    lemma_not_prefix("встреча"@, chat, 0);
    lemma_not_prefix("вызов"@, chat, 0);
    lemma_not_prefix("schůzka"@, chat, 0);
    lemma_not_prefix("hovor"@, chat, 0);
    lemma_not_prefix("értekezlet"@, chat, 0);
    lemma_not_prefix("hívás"@, chat, 0);
    lemma_not_prefix("ședință"@, chat, 0);
    lemma_not_prefix("apel"@, chat, 0);
    lemma_not_prefix("toplantı"@, chat, 0);
    lemma_not_prefix("arama"@, chat, 0);
    lemma_not_prefix("会議"@, chat, 0);
    lemma_not_prefix("会议"@, chat, 0);
    lemma_not_prefix("會議"@, chat, 0);
    lemma_not_prefix("회의"@, chat, 0);
    lemma_not_prefix("meeting"@, calendar, 0);
    lemma_not_prefix("call "@, calendar, 3);
    lemma_not_prefix("calling"@, calendar, 3);
    lemma_not_prefix("spotkanie"@, calendar, 0);
    lemma_not_prefix("połączenie"@, calendar, 0);
    lemma_not_prefix("trwa połączenie"@, calendar, 0);
    lemma_not_prefix("reunión"@, calendar, 0);
    lemma_not_prefix("reunion"@, calendar, 0);
    lemma_not_prefix("llamada"@, calendar, 0);
    lemma_not_prefix("réunion"@, calendar, 0);
    lemma_not_prefix("appel"@, calendar, 0);
    lemma_not_prefix("besprechung"@, calendar, 0);
    lemma_not_prefix("anruf"@, calendar, 0);
    lemma_not_prefix("reunião"@, calendar, 0);
    lemma_not_prefix("chamada"@, calendar, 1);
    lemma_not_prefix("riunione"@, calendar, 0);
    lemma_not_prefix("chiamata"@, calendar, 1);
    lemma_not_prefix("vergadering"@, calendar, 0);
    lemma_not_prefix("gesprek"@, calendar, 0);
    lemma_not_prefix("собрание"@, calendar, 0);
    lemma_not_prefix("встреча"@, calendar, 0);
    lemma_not_prefix("вызов"@, calendar, 0);
    lemma_not_prefix("schůzka"@, calendar, 0);
    lemma_not_prefix("hovor"@, calendar, 0);
    lemma_not_prefix("értekezlet"@, calendar, 0);
    lemma_not_prefix("hívás"@, calendar, 0);
    lemma_not_prefix("ședință"@, calendar, 0);
    lemma_not_prefix("apel"@, calendar, 0);
    lemma_not_prefix("toplantı"@, calendar, 0);
    lemma_not_prefix("arama"@, calendar, 0);
    lemma_not_prefix("会議"@, calendar, 0);
    lemma_not_prefix("会议"@, calendar, 0);
    lemma_not_prefix("會議"@, calendar, 0);
    lemma_not_prefix("회의"@, calendar, 0);
    lemma_not_prefix("meeting"@, home, 1);
    lemma_not_prefix("call "@, home, 0);
    lemma_not_prefix("calling"@, home, 0);
    lemma_not_prefix("spotkanie"@, home, 0);
    lemma_not_prefix("połączenie"@, home, 0);
    lemma_not_prefix("trwa połączenie"@, home, 0);
    lemma_not_prefix("reunión"@, home, 0);
    lemma_not_prefix("reunion"@, home, 0);
    lemma_not_prefix("llamada"@, home, 0);
    lemma_not_prefix("réunion"@, home, 0);
    lemma_not_prefix("appel"@, home, 0);
    lemma_not_prefix("besprechung"@, home, 0);
    lemma_not_prefix("anruf"@, home, 0);
    lemma_not_prefix("reunião"@, home, 0);
    lemma_not_prefix("chamada"@, home, 0);
    lemma_not_prefix("riunione"@, home, 0);
    lemma_not_prefix("chiamata"@, home, 0);
    lemma_not_prefix("vergadering"@, home, 0);
    lemma_not_prefix("gesprek"@, home, 0);
    lemma_not_prefix("собрание"@, home, 0);
    lemma_not_prefix("встреча"@, home, 0);
    lemma_not_prefix("вызов"@, home, 0);
    lemma_not_prefix("schůzka"@, home, 0);
    lemma_not_prefix("hovor"@, home, 0);
    lemma_not_prefix("értekezlet"@, home, 0);
    lemma_not_prefix("hívás"@, home, 0);
    lemma_not_prefix("ședință"@, home, 0);
    lemma_not_prefix("apel"@, home, 0);
    lemma_not_prefix("toplantı"@, home, 0);
    lemma_not_prefix("arama"@, home, 0);
    lemma_not_prefix("会議"@, home, 0);
    lemma_not_prefix("会议"@, home, 0);
    lemma_not_prefix("會議"@, home, 0);
    lemma_not_prefix("회의"@, home, 0);
}

/// A meeting code is three, four and three small letters with hyphens
/// between them, and nothing else is one.
pub proof fn lemma_meeting_code_shape(code: Seq<char>)
    requires
        code.len() > 0,
        !code.contains('?'),
        !code.contains('#'),
        !code.contains('/'),
        !text::white_space(code[0]),
        !text::white_space(code.last()),
    ensures
        meet_url("https://"@ + ("meet.google.com/"@ + code)) <==> code.len() == 12 && forall|
            i: int,
        |
            0 <= i < 12 ==> if i == 3 || i == 8 {
                #[trigger] code[i] == '-'
            } else {
                'a' <= code[i] <= 'z'
            },
{
    reveal_strlit("meet.google.com/");
    let address = "meet.google.com/"@ + code;
    assert(address[0] == 'm');
    lemma_scheme_makes_no_difference(address);
    lemma_begins("meet.google.com/"@, code);
    text::lemma_cut_at(code, Seq::empty(), '?');
    text::lemma_cut_at(code, Seq::empty(), '#');
    text::lemma_cut_at(code, Seq::empty(), '/');
    assert(text::trim_start(code) == code);
    assert(text::trim_end(code) == code);
    assert(first_segment(code) == code);
    if meet_url("https://"@ + address) {
        assert(meet_code(code));
    }
    if code.len() == 12 && forall|i: int|
        0 <= i < 12 ==> if i == 3 || i == 8 {
            #[trigger] code[i] == '-'
        } else {
            'a' <= code[i] <= 'z'
        } {
        assert(code[3] == '-' && code[8] == '-');
        assert(meet_code(code));
    }
}

/// No address on a Teams host is taken for one of Google Meet.
pub proof fn lemma_teams_hosts_are_not_google(path: Seq<char>)
    ensures
        !meet_url("https://"@ + ("teams.microsoft.com/"@ + path)),
        !meet_url("https://"@ + ("teams.cloud.microsoft/"@ + path)),
        !meet_url("https://"@ + ("teams.live.com/"@ + path)),
{
    reveal_strlit("teams.microsoft.com/");
    reveal_strlit("teams.cloud.microsoft/");
    reveal_strlit("teams.live.com/");
    reveal_strlit("meet.google.com/");
    let work = "teams.microsoft.com/"@ + path;
    let cloud = "teams.cloud.microsoft/"@ + path;
    let live = "teams.live.com/"@ + path;
    assert(work[0] == 't' && cloud[0] == 't' && live[0] == 't');
    lemma_scheme_makes_no_difference(work);
    lemma_scheme_makes_no_difference(cloud);
    lemma_scheme_makes_no_difference(live);
    lemma_not_prefix("meet.google.com/"@, work, 0);
    lemma_not_prefix("meet.google.com/"@, cloud, 0);
    lemma_not_prefix("meet.google.com/"@, live, 0);
}

} // verus!
