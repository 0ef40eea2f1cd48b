//! Picks the birthdays inside the notice period and ranks them by urgency.

use vstd::prelude::*;
use crate::composer::sorted_by_days;
use crate::model::{BirthdayReminder, DbReminder, DbUser};
use crate::recurrence::{birthday_info, calculate_birthday_info};

verus! {

broadcast use vstd::seq_lib::group_to_multiset_ensures;

/// Keeps a candidate whose days-until lies within `0..=days_notice`.
pub open spec fn notice_filter(days_notice: i64) -> spec_fn(BirthdayReminder) -> Option<
    BirthdayReminder,
> {
    |c: BirthdayReminder|
        if 0 <= c.days_until <= days_notice {
            Some(c)
        } else {
            None
        }
}

/// The candidate for a reminder, when its next birthday can be computed.
pub open spec fn candidate_of(r: DbReminder, zone: Seq<char>, now: i64) -> Option<BirthdayReminder> {
    match birthday_info(r.birthdate as int, zone, now as int) {
        Ok(info) => Some(BirthdayReminder { name: r.name, days_until: info.0, age_turning: info.1 }),
        Err(_) => None,
    }
}

pub open spec fn candidates_of(reminders: Seq<DbReminder>, zone: Seq<char>, now: i64) -> Seq<
    BirthdayReminder,
> {
    reminders.filter_map(|r: DbReminder| candidate_of(r, zone, now))
}

/// What the selector keeps for a user: the computable candidates inside the
/// notice period.
pub open spec fn selected(user: DbUser, reminders: Seq<DbReminder>, now: i64) -> Seq<
    BirthdayReminder,
> {
    candidates_of(reminders, user.iana_tz@, now).filter_map(notice_filter(user.days_notice))
}

/// Where a candidate with `days` days to go enters an already ranked list:
/// after every entry that is no later.
pub open spec fn insertion_point(s: Seq<BirthdayReminder>, days: i64) -> int
    decreases s.len(),
{
    if s.len() == 0 {
        0
    } else if s.last().days_until <= days {
        s.len() as int
    } else {
        insertion_point(s.drop_last(), days)
    }
}

/// Candidates ranked by days until the birthday; ties keep their order.
pub open spec fn ranked(s: Seq<BirthdayReminder>) -> Seq<BirthdayReminder>
    decreases s.len(),
{
    if s.len() == 0 {
        s
    } else {
        let r = ranked(s.drop_last());
        r.insert(insertion_point(r, s.last().days_until), s.last())
    }
}

proof fn lemma_insertion_point(s: Seq<BirthdayReminder>, days: i64)
    requires
        sorted_by_days(s),
    ensures
        0 <= insertion_point(s, days) <= s.len(),
        forall|j: int| 0 <= j < insertion_point(s, days) ==> #[trigger] s[j].days_until <= days,
        forall|j: int| insertion_point(s, days) <= j < s.len() ==> #[trigger] s[j].days_until > days,
    decreases s.len(),
{
    if s.len() > 0 {
        if s.last().days_until > days {
            let d = s.drop_last();
            assert forall|a: int, b: int| 0 <= a <= b < d.len() implies d[a].days_until
                <= d[b].days_until by {
                assert(d[a] == s[a] && d[b] == s[b]);
            }
            lemma_insertion_point(d, days);
            assert forall|j: int| 0 <= j < insertion_point(s, days) implies #[trigger] s[j].days_until
                <= days by {
                assert(s[j] == d[j]);
            }
            assert forall|j: int| insertion_point(s, days) <= j < s.len() implies #[trigger] s[j].days_until
                > days by {
                if j < d.len() {
                    assert(s[j] == d[j]);
                }
            }
        } else {
            assert forall|j: int| 0 <= j < s.len() implies #[trigger] s[j].days_until <= days by {
                assert(s[j].days_until <= s[s.len() - 1].days_until);
            }
        }
    }
}

/// A ranked list is ordered by days until the birthday.
pub proof fn lemma_ranked_sorted(s: Seq<BirthdayReminder>)
    ensures
        sorted_by_days(ranked(s)),
    decreases s.len(),
{
    if s.len() > 0 {
        let r = ranked(s.drop_last());
        lemma_ranked_sorted(s.drop_last());
        let x = s.last();
        let p = insertion_point(r, x.days_until);
        lemma_insertion_point(r, x.days_until);
        let t = r.insert(p, x);
        assert forall|a: int, b: int| 0 <= a <= b < t.len() implies t[a].days_until
            <= t[b].days_until by {
            if a < p && b > p {
                assert(t[a] == r[a] && t[b] == r[b - 1]);
            } else if a < p && b == p {
                assert(t[a] == r[a]);
            } else if a == p && b > p {
                assert(t[b] == r[b - 1]);
            } else if a > p {
                assert(t[a] == r[a - 1] && t[b] == r[b - 1]);
            } else if b < p {
                assert(t[a] == r[a] && t[b] == r[b]);
            }
        }
    }
}

fn copy_reminder(c: &BirthdayReminder) -> (r: BirthdayReminder)
    ensures
        r == *c,
{
    BirthdayReminder { name: c.name.clone(), days_until: c.days_until, age_turning: c.age_turning }
}

proof fn lemma_insert_multiset(s: Seq<BirthdayReminder>, i: int, x: BirthdayReminder)
    requires
        0 <= i <= s.len(),
    ensures
        s.insert(i, x).to_multiset() == s.to_multiset().insert(x),
{
    let t = s.insert(i, x);
    assert(t.remove(i) =~= s);
    assert(t[i] == x);
    assert(t.to_multiset().count(x) > 0) by {
        assert(t.contains(x));
    }
    assert(t.to_multiset() =~= s.to_multiset().insert(x));
}

/// The candidates inside the notice period, ordered by days until the
/// birthday, most urgent first; equal days keep their input order.
pub fn rank_candidates(candidates: &Vec<BirthdayReminder>, days_notice: i64) -> (r: Vec<
    BirthdayReminder,
>)
    ensures
        r@ == ranked(candidates@.filter_map(notice_filter(days_notice))),
        sorted_by_days(r@),
        r@.to_multiset() == candidates@.filter_map(notice_filter(days_notice)).to_multiset(),
{
    let ghost keep = notice_filter(days_notice);
    let mut out: Vec<BirthdayReminder> = Vec::new();
    let n = candidates.len();
    let mut i: usize = 0;
    assert(candidates@.take(0).filter_map(keep) =~= Seq::<BirthdayReminder>::empty());
    while i < n
        invariant
            n == candidates@.len(),
            i <= n,
            keep == notice_filter(days_notice),
            out@ == ranked(candidates@.take(i as int).filter_map(keep)),
            sorted_by_days(out@),
            out@.to_multiset() == candidates@.take(i as int).filter_map(keep).to_multiset(),
        decreases n - i,
    {
        let ghost prev = out@;
        let c = &candidates[i];
        assert(candidates@.take(i + 1).drop_last() =~= candidates@.take(i as int));
        assert(candidates@.take(i + 1).last() == *c);
        if 0 <= c.days_until && c.days_until <= days_notice {
            let item = copy_reminder(c);
            let mut pos = out.len();
            assert(prev.take(pos as int) =~= prev);
            while pos > 0 && out[pos - 1].days_until > item.days_until
                invariant
                    pos <= out.len(),
                    out@ == prev,
                    insertion_point(prev, item.days_until) == insertion_point(prev.take(pos as int), item.days_until),
                    forall|j: int| pos <= j < out.len() ==> #[trigger] out@[j].days_until
                        > item.days_until,
                decreases pos,
            {
                assert(prev.take(pos as int).drop_last() =~= prev.take(pos - 1));
                pos = pos - 1;
            }
            assert(prev.take(out.len() as int) =~= prev);
            assert(insertion_point(prev.take(pos as int), item.days_until) == pos) by {
                if pos > 0 {
                    assert(prev.take(pos as int).last() == prev[pos - 1]);
                }
            }
            out.insert(pos, item);
            proof {
                let fm = candidates@.take(i as int).filter_map(keep);
                assert(fm.push(*c).drop_last() =~= fm);
                assert(fm.push(*c).last() == *c);
                lemma_insert_multiset(prev, pos as int, item);
                assert(candidates@.take(i + 1).filter_map(keep) == candidates@.take(
                    i as int,
                ).filter_map(keep) + seq![*c]);
                assert((candidates@.take(i as int).filter_map(keep) + seq![*c]) =~= candidates@.take(
                    i as int,
                ).filter_map(keep).push(*c));
                assert forall|a: int, b: int| 0 <= a <= b < out@.len() implies out@[a].days_until
                    <= out@[b].days_until by {
                    if a < pos && b > pos {
                        assert(out@[a] == prev[a]);
                        assert(out@[b] == prev[b - 1]);
                    } else if a < pos && b == pos {
                        assert(out@[a] == prev[a]);
                        assert(prev[pos - 1].days_until <= item.days_until);
                    } else if a == pos && b > pos {
                        assert(out@[b] == prev[b - 1]);
                    } else if a > pos {
                        assert(out@[a] == prev[a - 1]);
                        assert(out@[b] == prev[b - 1]);
                    } else if b < pos {
                        assert(out@[a] == prev[a]);
                        assert(out@[b] == prev[b]);
                    }
                }
            }
        } else {
            assert(candidates@.take(i + 1).filter_map(keep) == candidates@.take(i as int).filter_map(
                keep,
            ));
        }
        i = i + 1;
    }
    assert(candidates@.take(n as int) =~= candidates@);
    out
}

/// The user's birthdays inside the notice period, most urgent first, with
/// "today" read in the user's zone at `now_millis`. Reminders whose next
/// birthday cannot be computed are left out.
pub fn get_reminders_to_send(user: &DbUser, reminders: &Vec<DbReminder>, now_millis: i64) -> (r: Vec<
    BirthdayReminder,
>)
    ensures
        r@ == ranked(selected(*user, reminders@, now_millis)),
        sorted_by_days(r@),
        r@.to_multiset() == selected(*user, reminders@, now_millis).to_multiset(),
{
    let ghost zone = user.iana_tz@;
    let ghost pick = |r: DbReminder| candidate_of(r, zone, now_millis);
    let mut candidates: Vec<BirthdayReminder> = Vec::new();
    let n = reminders.len();
    let mut i: usize = 0;
    assert(reminders@.take(0).filter_map(pick) =~= Seq::<BirthdayReminder>::empty());
    while i < n
        invariant
            n == reminders@.len(),
            i <= n,
            zone == user.iana_tz@,
            pick == (|r: DbReminder| candidate_of(r, zone, now_millis)),
            candidates@ == reminders@.take(i as int).filter_map(pick),
        decreases n - i,
    {
        let reminder = &reminders[i];
        assert(reminders@.take(i + 1).drop_last() =~= reminders@.take(i as int));
        assert(reminders@.take(i + 1).last() == *reminder);
        match calculate_birthday_info(reminder.birthdate, user.iana_tz.as_str(), now_millis) {
            Ok(info) => {
                candidates.push(
                    BirthdayReminder {
                        name: reminder.name.clone(),
                        days_until: info.0,
                        age_turning: info.1,
                    },
                );
            },
            Err(_) => {},
        }
        i = i + 1;
    }
    assert(reminders@.take(n as int) =~= reminders@);
    rank_candidates(&candidates, user.days_notice)
}

} // verus!
