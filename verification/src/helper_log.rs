//! How much of what the native call helper prints to its error stream is
//! logged: the first few lines, then one now and then with a count of those
//! that were left out.

use crate::deadlines;
use crate::deadlines::elapsed;
use vstd::prelude::*;

verus! {

pub const HELPER_STDERR_INITIAL_LOG_LIMIT: usize = 5;

/// Seconds between two logged lines after the first few.
pub const HELPER_STDERR_LOG_INTERVAL_SECS: u64 = 10;

#[derive(Debug, Clone, Copy, PartialEq, Eq, Structural)]
pub struct HelperStderrRateLimiter {
    pub initial_lines_logged: usize,
    pub suppressed_lines: u64,
    pub last_log_at: u64,
}

/// Whether a line that comes at `now` is logged.
pub open spec fn logs_line(limiter: HelperStderrRateLimiter, now: u64) -> bool {
    ||| limiter.initial_lines_logged < HELPER_STDERR_INITIAL_LOG_LIMIT
    ||| deadlines::has_elapsed(limiter.last_log_at, now, HELPER_STDERR_LOG_INTERVAL_SECS)
}

/// How many lines were left out before it, if it is logged.
pub open spec fn left_out_before(limiter: HelperStderrRateLimiter, now: u64) -> Option<u64> {
    if limiter.initial_lines_logged < HELPER_STDERR_INITIAL_LOG_LIMIT {
        Some(0)
    } else if logs_line(limiter, now) {
        Some(limiter.suppressed_lines)
    } else {
        None
    }
}

pub open spec fn after_line(limiter: HelperStderrRateLimiter, now: u64) -> HelperStderrRateLimiter {
    if limiter.initial_lines_logged < HELPER_STDERR_INITIAL_LOG_LIMIT {
        HelperStderrRateLimiter {
            initial_lines_logged: (limiter.initial_lines_logged + 1) as usize,
            last_log_at: now,
            ..limiter
        }
    } else if logs_line(limiter, now) {
        HelperStderrRateLimiter { suppressed_lines: 0, last_log_at: now, ..limiter }
    } else {
        HelperStderrRateLimiter {
            suppressed_lines: (limiter.suppressed_lines + 1) as u64,
            ..limiter
        }
    }
}

impl HelperStderrRateLimiter {
    pub fn new(now: u64) -> (limiter: Self)
        ensures
            limiter == (HelperStderrRateLimiter {
                initial_lines_logged: 0,
                suppressed_lines: 0,
                last_log_at: now,
            }),
    {
        HelperStderrRateLimiter { initial_lines_logged: 0, suppressed_lines: 0, last_log_at: now }
    }

    /// Returns the number of lines suppressed before the current line when
    /// the current line should be logged, or `None` when it should be hidden.
    pub fn observe(&mut self, now: u64) -> (suppressed: Option<u64>)
        requires
            logs_line(*old(self), now) || old(self).suppressed_lines < u64::MAX,
        ensures
            suppressed == left_out_before(*old(self), now),
            *final(self) == after_line(*old(self), now),
    {
        if self.initial_lines_logged < HELPER_STDERR_INITIAL_LOG_LIMIT {
            self.initial_lines_logged += 1;
            self.last_log_at = now;
            return Some(0);
        }
        if elapsed(self.last_log_at, now, HELPER_STDERR_LOG_INTERVAL_SECS) {
            let suppressed: u64 = self.suppressed_lines;
            self.suppressed_lines = 0;
            self.last_log_at = now;
            return Some(suppressed);
        }
        self.suppressed_lines += 1;
        None
    }
}

/// The limiter after lines at these moments.
pub open spec fn after_lines(limiter: HelperStderrRateLimiter, times: Seq<u64>) -> HelperStderrRateLimiter
    decreases times.len(),
{
    if times.len() == 0 {
        limiter
    } else {
        after_line(after_lines(limiter, times.drop_last()), times.last())
    }
}

/// How many lines were logged, and how many were counted as left out in what
/// was logged.
pub open spec fn accounted(limiter: HelperStderrRateLimiter, times: Seq<u64>) -> nat
    decreases times.len(),
{
    if times.len() == 0 {
        0
    } else {
        accounted(limiter, times.drop_last()) + match left_out_before(
            after_lines(limiter, times.drop_last()),
            times.last(),
        ) {
            Some(suppressed) => 1 + suppressed as nat,
            None => 0nat,
        }
    }
}

/// No line goes missing: every line was logged, or counted in one that was,
/// or is in the count still to come. While the first few are logged nothing
/// is left out.
pub proof fn lemma_every_line_is_accounted_for(start: u64, times: Seq<u64>)
    requires
        times.len() <= u64::MAX,
    ensures
        ({
            let fresh = HelperStderrRateLimiter {
                initial_lines_logged: 0,
                suppressed_lines: 0,
                last_log_at: start,
            };
            let now = after_lines(fresh, times);
            &&& accounted(fresh, times) + now.suppressed_lines == times.len()
            &&& now.initial_lines_logged == (if times.len()
                < HELPER_STDERR_INITIAL_LOG_LIMIT {
                times.len()
            } else {
                HELPER_STDERR_INITIAL_LOG_LIMIT as nat
            })
            &&& times.len() <= HELPER_STDERR_INITIAL_LOG_LIMIT ==> now.suppressed_lines == 0
        }),
    decreases times.len(),
{
    if times.len() > 0 {
        lemma_every_line_is_accounted_for(start, times.drop_last());
    }
}

/// The first five lines are logged as they come.
pub proof fn lemma_first_five_lines_are_logged(limiter: HelperStderrRateLimiter, now: u64)
    ensures
        limiter.initial_lines_logged < 5 ==> left_out_before(limiter, now) == Some(0u64)
            && after_line(limiter, now) == (HelperStderrRateLimiter {
            initial_lines_logged: (limiter.initial_lines_logged + 1) as usize,
            suppressed_lines: limiter.suppressed_lines,
            last_log_at: now,
        }),
        limiter.initial_lines_logged >= 5 ==> after_line(limiter, now).initial_lines_logged
            == limiter.initial_lines_logged,
{
}

/// After them a line is logged ten seconds after the last that was, and not
/// before; one that is left out is counted, and told of with the next that is
/// logged.
pub proof fn lemma_later_lines_are_ten_seconds_apart(
    limiter: HelperStderrRateLimiter,
    then: u64,
    now: u64,
)
    requires
        limiter.initial_lines_logged >= 5,
        limiter.suppressed_lines < u64::MAX,
    ensures
        left_out_before(limiter, then) is Some ==> (left_out_before(
            after_line(limiter, then),
            now,
        ) is Some <==> now >= then + 10_000_000_000),
        left_out_before(limiter, then) is Some ==> after_line(limiter, then).suppressed_lines == 0,
        left_out_before(limiter, then) is None ==> after_line(limiter, then).suppressed_lines
            == limiter.suppressed_lines + 1,
        left_out_before(limiter, then) is None ==> after_line(limiter, then).last_log_at
            == limiter.last_log_at,
        left_out_before(limiter, then) is None && left_out_before(
            after_line(limiter, then),
            now,
        ) is Some ==> left_out_before(after_line(limiter, then), now) == Some(
            (limiter.suppressed_lines + 1) as u64,
        ),
{
}

/// Whether a line is logged, by itself: always among the first five, and later
/// once ten seconds have passed since the last.
pub proof fn lemma_when_a_line_is_logged(limiter: HelperStderrRateLimiter, now: u64)
    ensures
        logs_line(limiter, now) <==> limiter.initial_lines_logged < 5 || now >= limiter.last_log_at
            + 10_000_000_000,
        left_out_before(limiter, now) is Some <==> logs_line(limiter, now),
{
}

} // verus!
