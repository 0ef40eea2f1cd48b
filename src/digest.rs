//! One pass over all subscribers: who is due a digest now, and its text.

use vstd::prelude::*;
use crate::composer::{
    closing, compose, format_birthday_message, join_lines, lemma_compose_renders_prefix_in_order,
    lines_of, sorted_by_days,
};
use crate::eligibility::{is_send_time_for_user, may_send_now, was_notified_recently};
use crate::model::{DbReminder, DbUser, SmsMessage};
use crate::selector::{get_reminders_to_send, lemma_ranked_sorted, ranked, selected};

verus! {

impl View for SmsMessage {
    /// User id, destination number and body.
    type V = (i64, Seq<char>, Seq<char>);

    open spec fn view(&self) -> (i64, Seq<char>, Seq<char>) {
        (self.user_id, self.phone_number@, self.message@)
    }
}

/// Every digest renders its birthdays in non-decreasing order of days until
/// the birthday: its body is the newline-joined lines of the first `k`
/// ranked birthdays, followed by the closing.
pub proof fn lemma_digest_in_urgency_order(user: DbUser, reminders: Seq<DbReminder>, now: i64)
    requires
        digest_body(user, reminders, now) is Some,
    ensures
        ({
            let picked = ranked(selected(user, reminders_of(user.id, reminders), now));
            exists|k: int|
                0 <= k <= picked.len() && sorted_by_days(#[trigger] picked.take(k))
                    && digest_body(user, reminders, now).unwrap() == join_lines(
                    lines_of(picked.take(k)),
                ) + closing(join_lines(lines_of(picked.take(k))), (picked.len() - k) as nat)
        }),
{
    let picked = ranked(selected(user, reminders_of(user.id, reminders), now));
    lemma_ranked_sorted(selected(user, reminders_of(user.id, reminders), now));
    lemma_compose_renders_prefix_in_order(picked);
    let k = crate::composer::rendered_count(picked) as int;
    assert(sorted_by_days(picked.take(k)));
}

/// The reminders that belong to user `user_id`, in stored order.
pub open spec fn reminders_of(user_id: i64, reminders: Seq<DbReminder>) -> Seq<DbReminder> {
    reminders.filter_map(|r: DbReminder| if r.user_id == user_id { Some(r) } else { None })
}

/// The digest body for one user at `now`: none when sending is held back or
/// no birthday is inside the notice period.
pub open spec fn digest_body(user: DbUser, reminders: Seq<DbReminder>, now: i64) -> Option<
    Seq<char>,
> {
    let picked = ranked(selected(user, reminders_of(user.id, reminders), now));
    if may_send_now(user, now) && picked.len() > 0 {
        Some(compose(picked))
    } else {
        None
    }
}

/// The outbound messages of one pass, in user order.
pub open spec fn outbound(users: Seq<DbUser>, reminders: Seq<DbReminder>, now: i64) -> Seq<
    (i64, Seq<char>, Seq<char>),
> {
    users.filter_map(
        |u: DbUser|
            match digest_body(u, reminders, now) {
                Some(body) => Some((u.id, u.phone_number@, body)),
                None => None,
            },
    )
}

/// The reminders of user `user_id`, in stored order.
pub fn reminders_for_user(reminders: &Vec<DbReminder>, user_id: i64) -> (r: Vec<DbReminder>)
    ensures
        r@ == reminders_of(user_id, reminders@),
{
    let ghost pick = |r: DbReminder| if r.user_id == user_id { Some(r) } else { None };
    let mut out: Vec<DbReminder> = Vec::new();
    let n = reminders.len();
    let mut i: usize = 0;
    assert(reminders@.take(0).filter_map(pick) =~= Seq::<DbReminder>::empty());
    while i < n
        invariant
            n == reminders@.len(),
            i <= n,
            pick == (|r: DbReminder| if r.user_id == user_id { Some(r) } else { None }),
            out@ == reminders@.take(i as int).filter_map(pick),
        decreases n - i,
    {
        let r = &reminders[i];
        assert(reminders@.take(i + 1).drop_last() =~= reminders@.take(i as int));
        assert(reminders@.take(i + 1).last() == *r);
        if r.user_id == user_id {
            out.push(
                DbReminder {
                    id: r.id,
                    user_id: r.user_id,
                    name: r.name.clone(),
                    birthdate: r.birthdate,
                    created_at: r.created_at.clone(),
                    updated_at: r.updated_at.clone(),
                },
            );
        }
        i = i + 1;
    }
    assert(reminders@.take(n as int) =~= reminders@);
    out
}

/// The digest for one user at `now_millis`, if one is due.
pub fn digest_for_user(user: &DbUser, reminders: &Vec<DbReminder>, now_millis: i64) -> (r: Option<
    SmsMessage,
>)
    ensures
        match digest_body(*user, reminders@, now_millis) {
            Some(body) => r matches Some(m) && m@ == (user.id, user.phone_number@, body),
            None => r is None,
        },
{
    if !is_send_time_for_user(user, now_millis) {
        return None;
    }
    if was_notified_recently(user, now_millis) {
        return None;
    }
    let mine = reminders_for_user(reminders, user.id);
    let picked = get_reminders_to_send(user, &mine, now_millis);
    if picked.len() == 0 {
        return None;
    }
    let message = format_birthday_message(picked.as_slice());
    Some(SmsMessage { user_id: user.id, phone_number: user.phone_number.clone(), message })
}

/// All digests due at `now_millis`: one per user whose send hour it is in
/// the user's zone, who had no digest in the last twelve hours, and who has
/// a birthday inside the notice period. `reminders` may hold the reminders
/// of all users; each user gets those carrying its id.
pub fn get_birthday_messages(users: &Vec<DbUser>, reminders: &Vec<DbReminder>, now_millis: i64) -> (r: Vec<
    SmsMessage,
>)
    ensures
        r@.map_values(|m: SmsMessage| m@) == outbound(users@, reminders@, now_millis),
{
    let ghost pick = |u: DbUser|
        match digest_body(u, reminders@, now_millis) {
            Some(body) => Some((u.id, u.phone_number@, body)),
            None => None,
        };
    let mut out: Vec<SmsMessage> = Vec::new();
    let n = users.len();
    let mut i: usize = 0;
    assert(users@.take(0).filter_map(pick) =~= Seq::<(i64, Seq<char>, Seq<char>)>::empty());
    assert(out@.map_values(|m: SmsMessage| m@) =~= Seq::<(i64, Seq<char>, Seq<char>)>::empty());
    while i < n
        invariant
            n == users@.len(),
            i <= n,
            pick == (|u: DbUser|
                match digest_body(u, reminders@, now_millis) {
                    Some(body) => Some((u.id, u.phone_number@, body)),
                    None => None,
                }),
            out@.map_values(|m: SmsMessage| m@) == users@.take(i as int).filter_map(pick),
        decreases n - i,
    {
        let user = &users[i];
        assert(users@.take(i + 1).drop_last() =~= users@.take(i as int));
        assert(users@.take(i + 1).last() == *user);
        let ghost before = out@;
        match digest_for_user(user, reminders, now_millis) {
            Some(m) => {
                out.push(m);
                assert(out@.map_values(|m: SmsMessage| m@) =~= before.map_values(
                    |m: SmsMessage| m@,
                ).push(out@.last()@));
            },
            None => {},
        }
        i = i + 1;
    }
    assert(users@.take(n as int) =~= users@);
    out
}

} // verus!
