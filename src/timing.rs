//! When a reminder fires: the delay from now until its target instant.
use vstd::prelude::*;

verus! {

/// Delay used when a target time cannot be parsed: one minute from now.
pub const FALLBACK_DELAY_MS: u64 = 60_000;

/// The instant, in milliseconds since the Unix epoch, that chrono reads from
/// the text `s` as a `DateTime<Utc>`; `None` where chrono rejects the text.
pub uninterp spec fn parsed_instant_ms(s: Seq<char>) -> Option<i64>;

/// The wait, in milliseconds, before a reminder whose target instant is
/// `fire_at` (`None`: unreadable) fires, seen at instant `now`. `None` means
/// the reminder is dropped: its instant is not after `now`.
pub open spec fn planned_wait(fire_at: Option<i64>, now: int) -> Option<nat> {
    match fire_at {
        None => Some(FALLBACK_DELAY_MS as nat),
        Some(t) => if t - now > 0 { Some((t - now) as nat) } else { None },
    }
}

/// Relies on chrono's `FromStr for DateTime<Utc>` (relaxed RFC 3339) and on
/// `DateTime::timestamp_millis`: the result depends on the text alone.
#[verifier::external_body]
fn parse_instant_ms(s: &str) -> (r: Option<i64>)
    ensures
        r == parsed_instant_ms(s@),
{
    s.parse::<chrono::DateTime<chrono::Utc>>().ok().map(|d| d.timestamp_millis())
}

/// Relies on chrono's `Utc::now` and `DateTime::timestamp_millis`: the current
/// wall-clock instant in milliseconds; nothing is known of its value.
#[verifier::external_body]
fn now_ms() -> (r: i64) {
    chrono::Utc::now().timestamp_millis()
}

/// The wait before firing a reminder whose target instant is `fire_at`, seen
/// at `now`; `None` when the reminder is past due and must be dropped.
pub fn fire_delay(fire_at: Option<i64>, now: i64) -> (r: Option<u64>)
    ensures
        r matches Some(w) ==> w > 0,
        match r {
            Some(w) => planned_wait(fire_at, now as int) == Some(w as nat),
            None => planned_wait(fire_at, now as int) is None,
        },
{
    match fire_at {
        None => Some(FALLBACK_DELAY_MS),
        Some(t) => {
            let d: i128 = (t as i128) - (now as i128);
            if d > 0 {
                Some(d as u64)
            } else {
                None
            }
        },
    }
}

/// The wait before firing a reminder whose target instant is written `at`,
/// seen at `now`: an unreadable `at` waits one minute.
pub fn delay_for(at: &str, now: i64) -> (r: Option<u64>)
    ensures
        match r {
            Some(w) => planned_wait(parsed_instant_ms(at@), now as int) == Some(w as nat),
            None => planned_wait(parsed_instant_ms(at@), now as int) is None,
        },
{
    let fire_at = parse_instant_ms(at);
    fire_delay(fire_at, now)
}

/// The wait before firing a reminder whose target instant is written `at`,
/// seen at the current instant of the clock.
pub fn delay_from_now(at: &str) -> (r: Option<u64>)
    ensures
        exists|now: i64|
            match r {
                Some(w) => planned_wait(parsed_instant_ms(at@), now as int) == Some(w as nat),
                None => planned_wait(parsed_instant_ms(at@), now as int) is None,
            },
{
    let now = now_ms();
    delay_for(at, now)
}

/// A reminder whose target instant is not after `now` is never armed.
pub proof fn lemma_past_due_dropped(fire_at: i64, now: int)
    requires
        fire_at <= now,
    ensures
        planned_wait(Some(fire_at), now) is None,
{
}

/// A reminder whose target instant is after `now` is armed to wait exactly
/// until that instant.
pub proof fn lemma_future_waits_until_target(fire_at: i64, now: int)
    requires
        fire_at > now,
    ensures
        planned_wait(Some(fire_at), now) == Some((fire_at - now) as nat),
        now + (fire_at - now) == fire_at,
{
}

} // verus!
