//! Whether a subscriber is due a digest at a given instant.

use vstd::prelude::*;
use crate::calendar::LocalClock;
use crate::clock::{local_clock_at, local_clock_of, parse_rfc3339_millis, rfc3339_millis};
use crate::model::DbUser;

verus! {

/// Twelve hours in milliseconds: the minimum gap between two digests.
pub open spec fn cooldown_millis() -> int {
    43_200_000
}

/// The local clock reading shows the configured hour.
pub open spec fn hour_matches_spec(clock: Option<LocalClock>, send_hour: i64) -> bool {
    match clock {
        Some(c) => c.hour as int == send_hour as int,
        None => false,
    }
}

/// A digest went out, at a known instant, less than twelve hours before `now`.
pub open spec fn within_cooldown_spec(last: Option<i64>, now: i64) -> bool {
    match last {
        Some(t) => now - t < cooldown_millis(),
        None => false,
    }
}

/// The stored delivery time read as a UTC instant; `None` when absent or
/// unreadable.
pub open spec fn last_digest_instant(user: DbUser) -> Option<i64> {
    match user.last_digest_at {
        Some(s) => rfc3339_millis(s@ + seq!['Z']),
        None => None,
    }
}

pub open spec fn send_time_spec(user: DbUser, now: i64) -> bool {
    hour_matches_spec(local_clock_of(user.iana_tz@, now as int), user.send_hour)
}

pub open spec fn notified_recently_spec(user: DbUser, now: i64) -> bool {
    within_cooldown_spec(last_digest_instant(user), now)
}

/// Both conditions for sending: the right local hour and no recent digest.
pub open spec fn may_send_now(user: DbUser, now: i64) -> bool {
    send_time_spec(user, now) && !notified_recently_spec(user, now)
}

/// Sending is allowed only in the configured local hour: at any instant whose
/// local hour in the user's zone differs from `send_hour`, or whose zone
/// does not resolve, nothing is sent.
pub proof fn lemma_sends_only_at_send_hour(user: DbUser, now: i64)
    ensures
        may_send_now(user, now) ==> (local_clock_of(user.iana_tz@, now as int) matches Some(c)
            && c.hour as int == user.send_hour as int),
{
}

/// With a readable last delivery time, sending is held back while less than
/// twelve hours have passed, and at the send hour it is allowed once twelve
/// hours or more have passed.
pub proof fn lemma_cooldown_holds_back(user: DbUser, now: i64)
    requires
        last_digest_instant(user) is Some,
    ensures
        now - last_digest_instant(user).unwrap() < cooldown_millis() ==> !may_send_now(user, now),
        now - last_digest_instant(user).unwrap() >= cooldown_millis() ==> (may_send_now(user, now)
            == send_time_spec(user, now)),
{
}

/// The local reading shows `send_hour`; false when there is no reading.
pub fn hour_matches(clock: Option<LocalClock>, send_hour: i64) -> (r: bool)
    ensures
        r == hour_matches_spec(clock, send_hour),
{
    match clock {
        Some(c) => c.hour as i64 == send_hour,
        None => false,
    }
}

/// Less than twelve whole hours lie between the last delivery `last` and
/// `now`; false when there was none.
pub fn within_cooldown(last: Option<i64>, now: i64) -> (r: bool)
    ensures
        r == within_cooldown_spec(last, now),
{
    match last {
        Some(t) => {
            let elapsed: i128 = now as i128 - t as i128;
            if elapsed < 0 {
                true
            } else {
                let hours: i128 = elapsed / 3_600_000;
                assert(hours < 12 <==> elapsed < 43_200_000) by (nonlinear_arith)
                    requires
                        hours == elapsed / 3_600_000,
                        elapsed >= 0,
                ;
                hours < 12
            }
        },
        None => false,
    }
}

/// It is the user's send hour in the user's time zone; an unknown zone
/// holds sending back, and a send hour outside 0 to 23 never matches.
pub fn is_send_time_for_user(user: &DbUser, now_millis: i64) -> (r: bool)
    ensures
        r == send_time_spec(*user, now_millis),
        user.send_hour < 0 || user.send_hour > 23 ==> !r,
{
    let clock = local_clock_at(user.iana_tz.as_str(), now_millis);
    hour_matches(clock, user.send_hour)
}

/// A digest reached the user less than twelve hours ago. A missing or
/// unreadable delivery time counts as none.
pub fn was_notified_recently(user: &DbUser, now_millis: i64) -> (r: bool)
    ensures
        r == notified_recently_spec(*user, now_millis),
{
    let last = match &user.last_digest_at {
        Some(stamp) => {
            let mut text = stamp.clone();
            proof { reveal_strlit("Z"); }
            text.append("Z");
            assert(text@ =~= stamp@ + seq!['Z']);
            parse_rfc3339_millis(text.as_str())
        },
        None => None,
    };
    within_cooldown(last, now_millis)
}

} // verus!
