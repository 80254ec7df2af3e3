//! Back-off bookkeeping for a remote service that rate limits this machine.
//!
//! Time is a monotonic clock read in nanoseconds (`u64`); spans of time are
//! nanosecond counts too. A rate-limit answer starts a cooldown that doubles
//! with each consecutive limit (60 s, 120 s, 240 s, 480 s) up to 15 minutes;
//! a success resets the streak and spaces the next request by 5 seconds.
use vstd::prelude::*;
use vstd::arithmetic::power2::{pow2, lemma2_to64};
use vstd::bits::lemma_u64_shl_is_mul;
use crate::text::{contains_folded, decimal, has_sub, lower_seq, to_decimal};

verus! {

/// Nanoseconds in one second.
pub const NANOS_PER_SEC: u64 = 1_000_000_000;

/// Least spacing between two requests after a success (5 s, in nanoseconds).
pub const MIN_SPACING: u64 = 5_000_000_000;

/// Cooldown after the first rate limit of a streak (60 s, in nanoseconds).
pub const BASE_COOLDOWN: u64 = 60_000_000_000;

/// Longest cooldown (900 s, in nanoseconds).
pub const MAX_COOLDOWN: u64 = 900_000_000_000;

/// How a failed request was limited.
#[derive(Debug, Clone, Copy, PartialEq, Eq, Structural)]
pub enum RateLimitKind {
    /// HTTP 429 / "Too Many Requests".
    Hard,
    /// HTTP 403 / "Forbidden".
    Soft,
}

/// What `classify` answers for an error text.
pub open spec fn classify_spec(err: Seq<char>) -> Option<RateLimitKind> {
    let lower = lower_seq(err);
    if has_sub(lower, "429"@) || has_sub(lower, "too many requests"@) {
        Some(RateLimitKind::Hard)
    } else if has_sub(lower, "403"@) || has_sub(lower, "forbidden"@) {
        Some(RateLimitKind::Soft)
    } else {
        None
    }
}

/// Tells whether an error text reports a rate limit, ignoring ASCII case:
/// `429` or "too many requests" is hard, else `403` or "forbidden" is soft.
pub fn classify(err: &str) -> (r: Option<RateLimitKind>)
    ensures
        r == classify_spec(err@),
{
    if contains_folded(err, "429") || contains_folded(err, "too many requests") {
        Some(RateLimitKind::Hard)
    } else if contains_folded(err, "403") || contains_folded(err, "forbidden") {
        Some(RateLimitKind::Soft)
    } else {
        None
    }
}

/// Seconds of cooldown after the `n`-th consecutive rate limit:
/// 60 · 2^min(n−1, 8), capped at 900.
pub open spec fn cooldown_secs(n: nat) -> nat {
    let shift: nat = if n == 0 {
        0
    } else if n - 1 < 8 {
        (n - 1) as nat
    } else {
        8
    };
    let secs = 60 * pow2(shift);
    if secs < 900 {
        secs
    } else {
        900
    }
}

/// Seconds of cooldown after the `n`-th consecutive rate limit.
pub fn cooldown_secs_for(n: u32) -> (r: u64)
    ensures
        r == cooldown_secs(n as nat),
{
    let shift: u32 = if n == 0 {
        0
    } else if n - 1 < 8 {
        n - 1
    } else {
        8
    };
    proof {
        lemma2_to64();
        lemma_u64_shl_is_mul(1, shift as u64);
    }
    let factor: u64 = 1u64 << (shift as u64);
    let secs: u64 = 60 * factor;
    if secs < 900 {
        secs
    } else {
        900
    }
}

/// Time left until `next_allowed`, seen at `now` (zero when none is set or it has passed).
pub open spec fn remaining_spec(next_allowed: Option<u64>, now: u64) -> nat {
    match next_allowed {
        Some(until) => if until > now {
            (until - now) as nat
        } else {
            0
        },
        None => 0,
    }
}

/// Tracks when the next request may go out and how many rate limits came in a row.
pub struct RateLimiter {
    next_allowed: Option<u64>,
    consecutive_limits: u32,
}

impl RateLimiter {
    /// The instant before which no request should go out, if any.
    pub closed spec fn next_allowed_at(&self) -> Option<u64> {
        self.next_allowed
    }

    /// The number of rate limits since the last success.
    pub closed spec fn streak(&self) -> u32 {
        self.consecutive_limits
    }

    /// The limiter after a rate limit recorded at `now`.
    pub open spec fn after_rate_limit(self, now: u64) -> (u32, Option<u64>) {
        let n = self.streak() + 1;
        (n as u32, Some((now + cooldown_secs(n as nat) * NANOS_PER_SEC) as u64))
    }

    /// The limiter after a success recorded at `now`.
    pub open spec fn after_success(self, now: u64) -> (u32, Option<u64>) {
        (0u32, Some((now + MIN_SPACING) as u64))
    }

    /// A limiter with no pending cooldown and no streak.
    pub fn new() -> (r: RateLimiter)
        ensures
            r.next_allowed_at() == None::<u64>,
            r.streak() == 0,
    {
        RateLimiter { next_allowed: None, consecutive_limits: 0 }
    }

    /// The number of rate limits since the last success.
    pub fn consecutive_limits(&self) -> (r: u32)
        ensures
            r == self.streak(),
    {
        self.consecutive_limits
    }

    /// Time left before the next request may go out, seen at `now`.
    pub fn remaining(&self, now: u64) -> (r: u64)
        ensures
            r == remaining_spec(self.next_allowed_at(), now),
    {
        match self.next_allowed {
            Some(until) => if until > now {
                until - now
            } else {
                0
            },
            None => 0,
        }
    }

    /// Records a rate limit answered at `now`: the streak grows by one and the
    /// next request waits the streak's cooldown.
    pub fn record_rate_limit(&mut self, now: u64)
        requires
            old(self).streak() < u32::MAX,
            now + cooldown_secs((old(self).streak() + 1) as nat) * NANOS_PER_SEC <= u64::MAX,
        ensures
            (final(self).streak(), final(self).next_allowed_at()) == old(self).after_rate_limit(now),
    {
        let n: u32 = self.consecutive_limits + 1;
        self.consecutive_limits = n;
        let cooldown = cooldown_secs_for(n);
        self.next_allowed = Some(now + cooldown * NANOS_PER_SEC);
    }

    /// Records a success at `now`: the streak ends and the next request waits
    /// the least spacing.
    pub fn record_success(&mut self, now: u64)
        requires
            now + MIN_SPACING <= u64::MAX,
        ensures
            (final(self).streak(), final(self).next_allowed_at()) == old(self).after_success(now),
    {
        self.consecutive_limits = 0;
        self.next_allowed = Some(now + MIN_SPACING);
    }

    /// The message that tells the user how long to wait, seen at `now`.
    pub fn friendly_message(&self, now: u64) -> (r: String)
        ensures
            r@ == friendly_text(remaining_spec(self.next_allowed_at(), now)),
    {
        friendly_rate_limit_message(self.remaining(now))
    }
}

/// Whole minutes to announce for a remaining span: rounded up, at least one.
pub open spec fn announced_minutes(remaining: nat) -> nat {
    let secs = remaining / (NANOS_PER_SEC as nat);
    let mins = (secs + 59) / 60;
    if mins < 1 {
        1
    } else {
        mins
    }
}

/// Whole seconds to announce for a remaining span: rounded down, at least one.
pub open spec fn announced_seconds(remaining: nat) -> nat {
    let secs = remaining / (NANOS_PER_SEC as nat);
    if secs < 1 {
        1
    } else {
        secs
    }
}

/// The rate-limit message for a remaining span.
pub open spec fn friendly_text(remaining: nat) -> Seq<char> {
    "YouTube is rate limiting this machine. Try again in "@ + decimal(announced_minutes(remaining))
        + "m."@
}

/// The cooldown message for a remaining span.
pub open spec fn cooldown_text(remaining: nat) -> Seq<char> {
    "Waiting "@ + decimal(announced_seconds(remaining)) + "s — YouTube cooldown"@
}

/// "YouTube is rate limiting this machine. Try again in {mins}m." with the
/// remaining time in whole minutes, rounded up, at least one.
pub fn friendly_rate_limit_message(remaining: u64) -> (r: String)
    ensures
        r@ == friendly_text(remaining as nat),
{
    let secs = remaining / NANOS_PER_SEC;
    let mins0 = secs / 60 + if secs % 60 == 0 {
        0
    } else {
        1
    };
    let mins = if mins0 < 1 {
        1
    } else {
        mins0
    };
    assert(mins == announced_minutes(remaining as nat));
    let mut r = String::from_str("YouTube is rate limiting this machine. Try again in ");
    let digits = to_decimal(mins as u128);
    r.append(digits.as_str());
    r.append("m.");
    r
}

/// "Waiting {secs}s — YouTube cooldown" with the remaining time in whole
/// seconds, rounded down, at least one.
pub fn cooldown_message(remaining: u64) -> (r: String)
    ensures
        r@ == cooldown_text(remaining as nat),
{
    let secs0 = remaining / NANOS_PER_SEC;
    let secs = if secs0 < 1 {
        1
    } else {
        secs0
    };
    let mut r = String::from_str("Waiting ");
    let digits = to_decimal(secs as u128);
    r.append(digits.as_str());
    r.append("s — YouTube cooldown");
    r
}

impl Default for RateLimiter {
    /// A limiter with no pending cooldown and no streak.
    fn default() -> (r: RateLimiter)
        ensures
            r.next_allowed_at() == None::<u64>,
            r.streak() == 0,
    {
        RateLimiter::new()
    }
}

/// One round of waiting for the limiter to allow a request.
pub enum CooldownStep {
    /// The job was cancelled: stop with the cancellation error.
    Cancelled,
    /// No time is left: the request may go out.
    Ready,
    /// Time is left: show `message` when there is one, remember `shown_secs`
    /// as the last announced count, and sleep before the next round.
    Wait { message: Option<String>, shown_secs: u64 },
}

/// Decides one round of waiting: `cancelled` is the job's cancel flag,
/// `remaining` the limiter's remaining time, `last_shown_secs` the seconds
/// last announced. A message is shown only when the announced seconds change.
pub fn wait_until_allowed_step(cancelled: bool, remaining: u64, last_shown_secs: Option<u64>) -> (r:
    CooldownStep)
    ensures
        cancelled ==> r is Cancelled,
        !cancelled && remaining == 0 ==> r is Ready,
        !cancelled && remaining > 0 ==> ({
            &&& r matches CooldownStep::Wait { message, shown_secs }
            &&& shown_secs == announced_seconds(remaining as nat)
            &&& (message is Some <==> last_shown_secs != Some(shown_secs))
            &&& (message matches Some(m) ==> m@ == cooldown_text(remaining as nat))
        }),
{
    if cancelled {
        return CooldownStep::Cancelled;
    }
    if remaining == 0 {
        return CooldownStep::Ready;
    }
    let secs0 = remaining / NANOS_PER_SEC;
    let secs = if secs0 < 1 {
        1
    } else {
        secs0
    };
    let changed = match last_shown_secs {
        Some(last) => last != secs,
        None => true,
    };
    let message = if changed {
        Some(cooldown_message(remaining))
    } else {
        None
    };
    CooldownStep::Wait { message, shown_secs: secs }
}

/// The cooldown of any streak lies between the base (60 s) and the cap (900 s).
pub proof fn lemma_cooldown_bounds(n: nat)
    requires
        n >= 1,
    ensures
        60 <= cooldown_secs(n) <= 900,
{
    lemma2_to64();
    vstd::arithmetic::power2::lemma_pow2_pos((if n - 1 < 8 { (n - 1) as nat } else { 8nat }));
}

/// Each further consecutive rate limit doubles the cooldown, up to the cap.
pub proof fn lemma_cooldown_doubles(n: nat)
    requires
        n >= 1,
    ensures
        cooldown_secs(n + 1) == if 2 * cooldown_secs(n) < 900 {
            2 * cooldown_secs(n)
        } else {
            900
        },
{
    lemma2_to64();
    if n < 9 {
        vstd::arithmetic::power2::lemma_pow2_unfold(n);
    }
}

/// From the fifth consecutive rate limit on, the cooldown is the cap.
pub proof fn lemma_cooldown_capped(n: nat)
    requires
        n >= 5,
    ensures
        cooldown_secs(n) == 900,
{
    lemma2_to64();
    let shift: nat = if n - 1 < 8 { (n - 1) as nat } else { 8 };
    if shift > 4 {
        vstd::arithmetic::power2::lemma_pow2_strictly_increases(4, shift);
    }
}

/// A longer streak never gives a shorter cooldown.
pub proof fn lemma_cooldown_monotone(m: nat, n: nat)
    requires
        1 <= m <= n,
    ensures
        cooldown_secs(m) <= cooldown_secs(n),
    decreases n - m,
{
    if m < n {
        lemma_cooldown_monotone(m, (n - 1) as nat);
        lemma_cooldown_doubles((n - 1) as nat);
        lemma_cooldown_bounds((n - 1) as nat);
    }
}

/// Right after a rate limit recorded at `now`, the remaining time is the
/// streak's cooldown, which lies between `BASE_COOLDOWN` and `MAX_COOLDOWN`.
pub proof fn law_cooldown_after_rate_limit(lim: RateLimiter, now: u64)
    requires
        lim.streak() < u32::MAX,
        now + cooldown_secs((lim.streak() + 1) as nat) * NANOS_PER_SEC <= u64::MAX,
    ensures
        remaining_spec(lim.after_rate_limit(now).1, now) == cooldown_secs(
            (lim.streak() + 1) as nat,
        ) * NANOS_PER_SEC,
        BASE_COOLDOWN <= remaining_spec(lim.after_rate_limit(now).1, now) <= MAX_COOLDOWN,
{
    lemma_cooldown_bounds((lim.streak() + 1) as nat);
}

/// A success ends the streak: the next rate limit waits only `BASE_COOLDOWN`.
pub proof fn law_success_resets_streak(before: RateLimiter, after: RateLimiter, t1: u64, t2: u64)
    requires
        (after.streak(), after.next_allowed_at()) == before.after_success(t1),
        t2 + BASE_COOLDOWN <= u64::MAX,
    ensures
        after.after_rate_limit(t2).0 == 1,
        remaining_spec(after.after_rate_limit(t2).1, t2) == BASE_COOLDOWN,
{
    lemma2_to64();
}

/// Right after a success recorded at `now`, the remaining time is `MIN_SPACING`.
pub proof fn law_spacing_after_success(lim: RateLimiter, now: u64)
    requires
        now + MIN_SPACING <= u64::MAX,
    ensures
        remaining_spec(lim.after_success(now).1, now) == MIN_SPACING,
{
}

/// The remaining time runs down with the clock: `d` later it is `d` less,
/// and never below zero.
pub proof fn law_remaining_counts_down(next_allowed: Option<u64>, now: u64, d: u64)
    requires
        now + d <= u64::MAX,
    ensures
        remaining_spec(next_allowed, (now + d) as u64) == if remaining_spec(next_allowed, now) > d {
            remaining_spec(next_allowed, now) - d
        } else {
            0
        },
{
}

/// Once the instant set by the last record has come, nothing is left to wait.
pub proof fn law_remaining_zero_once_reached(until: u64, now: u64)
    requires
        until <= now,
    ensures
        remaining_spec(Some(until), now) == 0,
{
}

/// Case does not matter to `classify`.
pub proof fn law_classify_ignores_case(a: Seq<char>, b: Seq<char>)
    requires
        lower_seq(a) == lower_seq(b),
    ensures
        classify_spec(a) == classify_spec(b),
{
}

/// A hard limit wins over a soft one when the text reports both.
pub proof fn law_classify_hard_first(err: Seq<char>)
    requires
        has_sub(lower_seq(err), "429"@),
    ensures
        classify_spec(err) == Some(RateLimitKind::Hard),
{
}

} // verus!
