//! Packs ranked birthdays into one SMS of bounded length.

use vstd::prelude::*;
use vstd::string::*;
use crate::model::BirthdayReminder;
use crate::text::{decimal, ordinal_text, day_phrase, push_decimal, push_day_phrase, ordinal_suffix};

verus! {

/// Maximum number of characters in one message.
pub open spec fn char_budget() -> nat {
    160
}

/// The fixed link that closes every message.
pub open spec fn link_suffix() -> Seq<char> {
    seq!['\n', 'h', 't', 't', 'p', 's', ':', '/', '/', 'h', 'b', 'd', '.', 'b', 'o', 't']
}

/// `<name>'s <ordinal age> is <day phrase>`.
pub open spec fn reminder_line(r: BirthdayReminder) -> Seq<char> {
    r.name@ + seq!['\'', 's', ' '] + ordinal_text(r.age_turning as int) + seq![' ', 'i', 's', ' ']
        + day_phrase(r.days_until as int)
}

pub open spec fn lines_of(rs: Seq<BirthdayReminder>) -> Seq<Seq<char>> {
    rs.map_values(|r: BirthdayReminder| reminder_line(r))
}

/// `\n+ K more...` followed by the link.
pub open spec fn overflow_marker(k: nat) -> Seq<char> {
    seq!['\n', '+', ' '] + decimal(k) + seq![' ', 'm', 'o', 'r', 'e', '.', '.', '.'] + link_suffix()
}

/// Lines separated by newlines.
pub open spec fn join_lines(ls: Seq<Seq<char>>) -> Seq<char>
    decreases ls.len(),
{
    if ls.len() == 0 {
        seq![]
    } else if ls.len() == 1 {
        ls[0]
    } else {
        join_lines(ls.drop_last()) + seq!['\n'] + ls.last()
    }
}

/// The body after appending one more line.
pub open spec fn extend_body(body: Seq<char>, line: Seq<char>) -> Seq<char> {
    if body.len() == 0 {
        line
    } else {
        body + seq!['\n'] + line
    }
}

/// Greedy pass from line `i` on with the body committed so far; the result is
/// the final body and the number of lines committed.
pub open spec fn pack(lines: Seq<Seq<char>>, i: nat, body: Seq<char>) -> (Seq<char>, nat)
    decreases lines.len() - i,
{
    if i >= lines.len() {
        (body, i)
    } else {
        let cur = extend_body(body, lines[i as int]);
        let rest = (lines.len() - i - 1) as nat;
        if (cur + link_suffix()).len() <= char_budget() {
            if rest == 0 {
                (cur, i + 1)
            } else if rest > 1 && (cur + overflow_marker(rest)).len() <= char_budget() {
                (cur, i + 1)
            } else {
                pack(lines, i + 1, cur)
            }
        } else {
            (body, i)
        }
    }
}

/// What closes the body: the overflow marker when more than one line was
/// left out and it fits, the bare link otherwise.
pub open spec fn closing(body: Seq<char>, left_out: nat) -> Seq<char> {
    if left_out > 1 && (body + overflow_marker(left_out)).len() <= char_budget() {
        overflow_marker(left_out)
    } else {
        link_suffix()
    }
}

/// The message for a ranked list of birthdays.
pub open spec fn compose(rs: Seq<BirthdayReminder>) -> Seq<char> {
    let lines = lines_of(rs);
    let packed = pack(lines, 0, seq![]);
    packed.0 + closing(packed.0, (lines.len() - packed.1) as nat)
}

/// Number of birthdays that `compose` renders as lines.
pub open spec fn rendered_count(rs: Seq<BirthdayReminder>) -> nat {
    pack(lines_of(rs), 0, seq![]).1
}

pub open spec fn sorted_by_days(rs: Seq<BirthdayReminder>) -> bool {
    forall|i: int, j: int| 0 <= i <= j < rs.len() ==> rs[i].days_until <= rs[j].days_until
}

pub open spec fn ends_with_link(s: Seq<char>) -> bool {
    s.len() >= link_suffix().len() && s.subrange(s.len() - link_suffix().len(), s.len() as int)
        == link_suffix()
}

proof fn lemma_join_nonempty(ls: Seq<Seq<char>>)
    requires
        ls.len() > 0,
        forall|j: int| 0 <= j < ls.len() ==> #[trigger] ls[j].len() > 0,
    ensures
        join_lines(ls).len() > 0,
{
    if ls.len() > 1 {
        assert(ls.last().len() > 0);
    }
}

proof fn lemma_extend_join(lines: Seq<Seq<char>>, i: int)
    requires
        0 <= i < lines.len(),
        forall|j: int| 0 <= j < lines.len() ==> #[trigger] lines[j].len() > 0,
    ensures
        extend_body(join_lines(lines.take(i)), lines[i]) == join_lines(lines.take(i + 1)),
{
    let t = lines.take(i + 1);
    assert(t.drop_last() =~= lines.take(i));
    assert(t.last() == lines[i]);
    if i == 0 {
        assert(join_lines(lines.take(0)).len() == 0);
    } else {
        let p = lines.take(i);
        assert forall|j: int| 0 <= j < p.len() implies #[trigger] p[j].len() > 0 by {
            assert(p[j] == lines[j]);
        }
        lemma_join_nonempty(p);
    }
}

proof fn lemma_lines_nonempty(rs: Seq<BirthdayReminder>)
    ensures
        forall|j: int| 0 <= j < lines_of(rs).len() ==> #[trigger] lines_of(rs)[j].len() > 0,
{
    assert forall|j: int| 0 <= j < lines_of(rs).len() implies #[trigger] lines_of(rs)[j].len() > 0 by {
        assert(lines_of(rs)[j] == reminder_line(rs[j]));
    }
}

proof fn lemma_ends_with_link(head: Seq<char>, tail: Seq<char>)
    requires
        tail == link_suffix() || exists|k: nat| tail == overflow_marker(k),
    ensures
        ends_with_link(head + tail),
{
    if tail == link_suffix() {
        assert((head + tail).subrange(head.len() as int, (head + tail).len() as int) =~= tail);
    } else {
        let k = choose|k: nat| tail == overflow_marker(k);
        let front = head + seq!['\n', '+', ' '] + decimal(k) + seq![' ', 'm', 'o', 'r', 'e', '.', '.', '.'];
        assert(head + tail =~= front + link_suffix());
        assert((front + link_suffix()).subrange(front.len() as int, (front + link_suffix()).len() as int)
            =~= link_suffix());
    }
}

/// The greedy pass keeps the committed body a newline-joined prefix of the
/// lines, each with room for the link.
proof fn lemma_pack(lines: Seq<Seq<char>>, i: nat, body: Seq<char>)
    requires
        i <= lines.len(),
        body == join_lines(lines.take(i as int)),
        (body + link_suffix()).len() <= char_budget(),
        forall|j: int| 0 <= j < lines.len() ==> #[trigger] lines[j].len() > 0,
    ensures
        i <= pack(lines, i, body).1 <= lines.len(),
        pack(lines, i, body).0 == join_lines(lines.take(pack(lines, i, body).1 as int)),
        (pack(lines, i, body).0 + link_suffix()).len() <= char_budget(),
    decreases lines.len() - i,
{
    if i < lines.len() {
        lemma_extend_join(lines, i as int);
        let cur = extend_body(body, lines[i as int]);
        let rest = (lines.len() - i - 1) as nat;
        if (cur + link_suffix()).len() <= char_budget() && rest != 0 && !(rest > 1 && (cur
            + overflow_marker(rest)).len() <= char_budget()) {
            lemma_pack(lines, i + 1, cur);
        }
    }
}

/// Every composed message fits the budget and ends with the link.
pub proof fn lemma_compose_fits(rs: Seq<BirthdayReminder>)
    ensures
        compose(rs).len() <= char_budget(),
        ends_with_link(compose(rs)),
{
    let lines = lines_of(rs);
    lemma_lines_nonempty(rs);
    assert(join_lines(lines.take(0)).len() == 0);
    assert(join_lines(lines.take(0)) =~= seq![]);
    lemma_pack(lines, 0, seq![]);
    let packed = pack(lines, 0, seq![]);
    let c = closing(packed.0, (lines.len() - packed.1) as nat);
    lemma_ends_with_link(packed.0, c);
}

/// The composed message renders a prefix of its input in input order,
/// followed by the closing; for birthdays ranked by days until, the
/// rendered ones therefore come in non-decreasing days-until order.
pub proof fn lemma_compose_renders_prefix_in_order(rs: Seq<BirthdayReminder>)
    ensures
        rendered_count(rs) <= rs.len(),
        compose(rs) == join_lines(lines_of(rs.take(rendered_count(rs) as int))) + closing(
            join_lines(lines_of(rs.take(rendered_count(rs) as int))),
            (rs.len() - rendered_count(rs)) as nat,
        ),
        sorted_by_days(rs) ==> sorted_by_days(rs.take(rendered_count(rs) as int)),
{
    let lines = lines_of(rs);
    lemma_lines_nonempty(rs);
    assert(join_lines(lines.take(0)) =~= seq![]);
    lemma_pack(lines, 0, seq![]);
    let k = rendered_count(rs) as int;
    assert(lines_of(rs.take(k)) =~= lines.take(k));
}

/// Renders one birthday as a line.
pub fn reminder_text(r: &BirthdayReminder) -> (s: String)
    ensures
        s@ == reminder_line(*r),
{
    let mut s = r.name.clone();
    proof {
        reveal_strlit("'s ");
        reveal_strlit(" is ");
    }
    s.append("'s ");
    let ord = ordinal_suffix(r.age_turning);
    s.append(ord.as_str());
    s.append(" is ");
    push_day_phrase(&mut s, r.days_until);
    assert(s@ =~= reminder_line(*r));
    s
}

fn overflow_text(k: usize) -> (s: String)
    ensures
        s@ == overflow_marker(k as nat),
{
    let mut s = String::new();
    proof {
        reveal_strlit("\n+ ");
        reveal_strlit(" more...");
        reveal_strlit("\nhttps://hbd.bot");
    }
    s.append("\n+ ");
    push_decimal(&mut s, k as u64);
    s.append(" more...");
    s.append("\nhttps://hbd.bot");
    assert(s@ =~= overflow_marker(k as nat));
    s
}

/// Packs the birthdays, most urgent first, into one message of at most 160
/// characters ending with the link, with a `+ K more...` marker when
/// birthdays had to be left out and the marker fits.
pub fn format_birthday_message(reminders: &[BirthdayReminder]) -> (r: String)
    ensures
        r@ == compose(reminders@),
        r@.len() <= char_budget(),
        ends_with_link(r@),
{
    let ghost lines = lines_of(reminders@);
    let n = reminders.len();
    let mut message = String::new();
    let mut included: usize = 0;
    let mut i: usize = 0;
    let mut stop = false;
    proof {
        lemma_lines_nonempty(reminders@);
        reveal_strlit("\n");
        reveal_strlit("\nhttps://hbd.bot");
        assert(join_lines(lines.take(0)) =~= message@);
    }
    while i < n && !stop
        invariant
            n == reminders@.len(),
            lines == lines_of(reminders@),
            lines.len() == n,
            i <= n,
            included <= n,
            forall|j: int| 0 <= j < lines.len() ==> #[trigger] lines[j].len() > 0,
            stop ==> pack(lines, 0, seq![]) == (message@, included as nat),
            !stop ==> pack(lines, 0, seq![]) == pack(lines, i as nat, message@) && included == i,
            message@ == join_lines(lines.take(included as int)),
            (message@ + link_suffix()).len() <= char_budget(),
        decreases n - i,
    {
        let line = reminder_text(&reminders[i]);
        assert(line@ == lines[i as int]);
        proof { lemma_extend_join(lines, i as int); }
        let mut cur = message.clone();
        proof { reveal_strlit("\n"); }
        if message.as_str().unicode_len() != 0 {
            cur.append("\n");
        }
        cur.append(line.as_str());
        assert(cur@ =~= extend_body(message@, lines[i as int]));
        let rest = n - i - 1;
        let cur_len = cur.as_str().unicode_len();
        if cur_len <= 144 {
            let mut close_here = rest == 0;
            if rest > 1 {
                let more = overflow_text(rest);
                let more_len = more.as_str().unicode_len();
                if more_len <= 160 - cur_len {
                    close_here = true;
                }
            }
            message = cur;
            included = included + 1;
            if close_here {
                stop = true;
            }
        } else {
            stop = true;
        }
        i = i + 1;
    }
    let remaining = n - included;
    if remaining > 1 {
        let more = overflow_text(remaining);
        let msg_len = message.as_str().unicode_len();
        let more_len = more.as_str().unicode_len();
        if more_len <= 160 - msg_len {
            message.append(more.as_str());
            proof { lemma_ends_with_link(pack(lines, 0, seq![]).0, more@); }
            return message;
        }
    }
    let ghost body = message@;
    proof { reveal_strlit("\nhttps://hbd.bot"); }
    assert("\nhttps://hbd.bot"@ =~= link_suffix());
    message.append("\nhttps://hbd.bot");
    proof { lemma_ends_with_link(body, link_suffix()); }
    message
}

} // verus!
