//! What the microphone helper prints: whether an input is in use, and the
//! pids of the processes that capture.

use crate::text;
use crate::text::chars_of;
use std::collections::HashSet;
use vstd::prelude::*;

verus! {

broadcast use {vstd::std_specs::hash::group_hash_axioms, vstd::set::group_set_axioms};

/// The helper prints `1` while some input is in use.
pub fn mic_check_reports_live(stdout: &str) -> (live: bool)
    ensures
        live == (text::trim(stdout@) == "1"@),
{
    let chars = chars_of(stdout);
    text::same_chars(text::trim_chars(chars.as_slice()), chars_of("1").as_slice())
}

/// Whether some input is in use. The helper says so where it ran; else the
/// slower fallback does; and where neither ran, none is taken to be.
pub fn is_mic_in_use(helper: Option<&str>, fallback: Option<&str>) -> (live: bool)
    ensures
        live == (match (helper, fallback) {
            (Some(stdout), _) => text::trim(stdout@) == "1"@,
            (None, Some(stdout)) => text::trim(stdout@) == "1"@,
            (None, None) => false,
        }),
{
    match helper {
        Some(stdout) => mic_check_reports_live(stdout),
        None => match fallback {
            Some(stdout) => mic_check_reports_live(stdout),
            None => false,
        },
    }
}

/// The pids on the lines, one to a line; blank lines hold none. There is no
/// answer at all where a line holds something else.
pub open spec fn pids_of_lines(lines: Seq<Seq<char>>) -> Option<Set<u32>>
    decreases lines.len(),
{
    if lines.len() == 0 {
        Some(Set::empty())
    } else {
        let trimmed = text::trim(lines.last());
        match pids_of_lines(lines.drop_last()) {
            None => None,
            Some(earlier) => if trimmed.len() == 0 {
                Some(earlier)
            } else {
                match text::parse_u32(trimmed) {
                    Some(pid) => Some(earlier.insert(pid)),
                    None => None,
                }
            },
        }
    }
}

proof fn lemma_bad_line_stays(lines: Seq<Seq<char>>, n: int)
    requires
        0 <= n <= lines.len(),
        pids_of_lines(lines.take(n)) is None,
    ensures
        pids_of_lines(lines) is None,
    decreases lines.len() - n,
{
    if n < lines.len() {
        assert(lines.take(n + 1).drop_last() =~= lines.take(n));
        lemma_bad_line_stays(lines, n + 1);
    } else {
        assert(lines.take(n) =~= lines);
    }
}

/// The pids of the processes that capture, as `--active-input-pids` prints them.
pub fn active_input_pids_from_output(stdout: &str) -> (pids: Option<HashSet<u32>>)
    ensures
        match pids {
            Some(set) => pids_of_lines(text::lines(stdout@)) == Some(set@),
            None => pids_of_lines(text::lines(stdout@)) is None,
        },
{
    let chars = chars_of(stdout);
    let lines = text::lines_of(chars.as_slice());
    let ghost all = text::lines(stdout@);
    let mut pids: HashSet<u32> = HashSet::new();
    let mut i: usize = 0;
    proof {
        assert(all.take(0) =~= Seq::empty());
        assert(pids@ =~= Set::<u32>::empty());
    }
    while i < lines.len()
        invariant
            i <= lines.len(),
            text::runs(lines@) == all,
            all == text::lines(stdout@),
            pids_of_lines(all.take(i as int)) == Some(pids@),
        decreases lines.len() - i,
    {
        proof {
            assert(all[i as int] == lines@[i as int]@);
            assert(all.take(i + 1).drop_last() =~= all.take(i as int));
            assert(all.take(i + 1).last() == all[i as int]);
        }
        let trimmed = text::trim_chars(lines[i]);
        if trimmed.len() > 0 {
            match text::parse_u32_chars(trimmed) {
                Some(pid) => {
                    pids.insert(pid);
                },
                None => {
                    proof {
                        lemma_bad_line_stays(all, i + 1);
                    }
                    return None;
                },
            }
        }
        i += 1;
    }
    proof {
        assert(all.take(i as int) =~= all);
    }
    Some(pids)
}

/// Whether the microphone is live, as far as the capturing pids tell; without
/// them the device itself has to be asked.
pub fn mic_live_from_pids(active_input_pids: Option<&HashSet<u32>>) -> (live: Option<bool>)
    ensures
        match active_input_pids {
            Some(pids) => live == Some(pids@ != Set::<u32>::empty()),
            None => live is None,
        },
{
    match active_input_pids {
        Some(pids) => Some(!pids.is_empty()),
        None => None,
    }
}

/// One process a line: a number is taken up, with white space around it or
/// without, a blank line is passed over, and any other line spoils the whole.
pub proof fn lemma_each_line_is_a_process(
    lines: Seq<Seq<char>>,
    earlier: Set<u32>,
    pid: u32,
    indent: Seq<char>,
    blank: Seq<char>,
)
    requires
        pids_of_lines(lines) == Some(earlier),
        text::all_white_space(indent),
        text::all_white_space(blank),
    ensures
        pids_of_lines(lines.push(indent + text::decimal(pid as nat) + blank)) == Some(
            earlier.insert(pid),
        ),
        pids_of_lines(lines.push(blank)) == Some(earlier),
        pids_of_lines(Seq::empty()) == Some(Set::<u32>::empty()),
{
    let d = text::decimal(pid as nat);
    text::lemma_decimal_is_read_back(pid);
    assert(!text::white_space(d[0]));
    assert(!text::white_space(d[d.len() - 1]));
    text::lemma_trim_takes_what_is_around(indent, d, blank);
    text::lemma_trim_takes_what_is_around(blank, d, blank);
    assert(lines.push(indent + d + blank).drop_last() =~= lines);
    assert(lines.push(blank).drop_last() =~= lines);
}

/// A line that is neither blank nor a number spoils the list, wherever it
/// stands.
pub proof fn lemma_bad_line_spoils_the_list(
    before: Seq<Seq<char>>,
    line: Seq<char>,
    after: Seq<Seq<char>>,
    i: int,
)
    requires
        0 < i < text::trim(line).len(),
        !('0' <= text::trim(line)[i] <= '9'),
    ensures
        pids_of_lines(before.push(line) + after) is None,
{
    text::lemma_what_is_a_number(0, 0x1_0000_0000, text::trim(line), i);
    assert(before.push(line).drop_last() =~= before);
    assert(pids_of_lines(before.push(line)) is None);
    let whole = before.push(line) + after;
    assert(whole.take(before.len() as int + 1) =~= before.push(line));
    lemma_bad_line_stays(whole, before.len() as int + 1);
}

} // verus!
